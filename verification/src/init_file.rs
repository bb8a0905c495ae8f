//! The initialization file: which resources a session sets up at its start.
//!
//! Reading the file and its JSON is left to the caller, which hands over
//! what it found as an [`InitConfig`]. The rules for what the file may hold,
//! its defaults and the texts of its failures are here.

use crate::results::opt_text;
use crate::socat_tunnel::{NetworkRelay, NetworkRelayView, Protocol};
use crate::text::{chars_of, concat, trim, trimmed};
use vstd::prelude::*;

verus! {

/// A value of the file, as far as the rules read it.
#[derive(Clone, Debug, PartialEq, Eq)]
pub enum ConfigValue {
    /// A JSON string.
    Text(String),
    /// A JSON number that is a whole number of at most 64 bits, not below
    /// zero.
    Unsigned(u64),
    /// Any other JSON value.
    Other,
}

/// The mathematical value of a [`ConfigValue`].
pub enum ConfigValueView {
    Text(Seq<char>),
    Unsigned(u64),
    Other,
}

impl View for ConfigValue {
    type V = ConfigValueView;

    open spec fn view(&self) -> ConfigValueView {
        match *self {
            ConfigValue::Text(text) => ConfigValueView::Text(text@),
            ConfigValue::Unsigned(number) => ConfigValueView::Unsigned(number),
            ConfigValue::Other => ConfigValueView::Other,
        }
    }
}

/// A JSON object: its members, each key once.
#[derive(Clone, Debug, PartialEq, Eq)]
pub struct ConfigObject {
    pub members: Vec<(String, ConfigValue)>,
}

/// The mathematical value of a [`ConfigObject`]: its members in order.
pub type ConfigObjectView = Seq<(Seq<char>, ConfigValueView)>;

impl View for ConfigObject {
    type V = ConfigObjectView;

    open spec fn view(&self) -> ConfigObjectView {
        Seq::new(self.members@.len(), |i: int| (self.members@[i].0@, self.members@[i].1@))
    }
}

/// An item of a section.
#[derive(Clone, Debug, PartialEq, Eq)]
pub enum ConfigItem {
    Object(ConfigObject),
    /// Any JSON value that is no object.
    Other,
}

/// The mathematical value of a [`ConfigItem`].
pub enum ConfigItemView {
    Object(ConfigObjectView),
    Other,
}

impl View for ConfigItem {
    type V = ConfigItemView;

    open spec fn view(&self) -> ConfigItemView {
        match *self {
            ConfigItem::Object(object) => ConfigItemView::Object(object@),
            ConfigItem::Other => ConfigItemView::Other,
        }
    }
}

/// What the file holds under the key of a section.
#[derive(Clone, Debug, PartialEq, Eq)]
pub enum ConfigSection {
    Items(Vec<ConfigItem>),
    /// Any JSON value that is no array.
    Other,
}

/// The mathematical value of a [`ConfigSection`].
pub enum ConfigSectionView {
    Items(Seq<ConfigItemView>),
    Other,
}

/// The views of the items of a section.
pub open spec fn item_views(items: Seq<ConfigItem>) -> Seq<ConfigItemView> {
    Seq::new(items.len(), |i: int| items[i]@)
}

impl View for ConfigSection {
    type V = ConfigSectionView;

    open spec fn view(&self) -> ConfigSectionView {
        match *self {
            ConfigSection::Items(items) => ConfigSectionView::Items(item_views(items@)),
            ConfigSection::Other => ConfigSectionView::Other,
        }
    }
}

/// The view of a section that may be missing.
pub open spec fn section_view(section: Option<ConfigSection>) -> Option<ConfigSectionView> {
    match section {
        Some(section) => Some(section@),
        None => None,
    }
}

/// The file: what it holds under each of the keys that the rules know, a
/// key that the file lacks being `None`.
#[derive(Clone, Debug, PartialEq, Eq)]
pub struct InitConfig {
    /// Under `loadBalancers`.
    pub load_balancers: Option<ConfigSection>,
    /// Under `socatTunnels`.
    pub socat_tunnels: Option<ConfigSection>,
    /// Under `minikubeMounts`.
    pub minikube_mounts: Option<ConfigSection>,
    /// Under `defaultSocatConnectHost`.
    pub default_socat_connect_host: Option<ConfigValue>,
}

/// The value of the first member with the given key.
pub open spec fn member_from(object: ConfigObjectView, key: Seq<char>, from: int) -> Option<
    ConfigValueView,
>
    decreases object.len() - from,
{
    if from < 0 || from >= object.len() {
        None
    } else if object[from].0 == key {
        Some(object[from].1)
    } else {
        member_from(object, key, from + 1)
    }
}

/// The value that the object holds under `key`.
pub open spec fn member(object: ConfigObjectView, key: Seq<char>) -> Option<ConfigValueView> {
    member_from(object, key, 0)
}

/// The view of a value that may be missing.
pub open spec fn value_view(value: Option<&ConfigValue>) -> Option<ConfigValueView> {
    match value {
        Some(value) => Some(value@),
        None => None,
    }
}

/// The value that `object` holds under `key`.
pub fn get_member<'a>(object: &'a ConfigObject, key: &str) -> (value: Option<&'a ConfigValue>)
    ensures
        value_view(value) == member(object@, key@),
{
    let wanted = String::from_str(key);
    let mut i: usize = 0;
    while i < object.members.len()
        invariant
            i <= object.members.len(),
            wanted@ == key@,
            member(object@, key@) == member_from(object@, key@, i as int),
        decreases object.members.len() - i,
    {
        assert(object@[i as int].0 == object.members@[i as int].0@);
        assert(object@[i as int].1 == object.members@[i as int].1@);
        if object.members[i].0 == wanted {
            return Some(&object.members[i].1);
        }
        i += 1;
    }
    None
}

/// A text or a failure, by views.
pub open spec fn text_or_failure(result: Result<String, String>) -> Result<Seq<char>, Seq<char>> {
    match result {
        Ok(text) => Ok(text@),
        Err(error) => Err(error@),
    }
}

/// The text under `key`: the string that the object holds there, the
/// default where it holds nothing, and a failure for any other value and
/// for a missing value without a default.
pub open spec fn json_string(
    object: ConfigObjectView,
    key: Seq<char>,
    default_value: Option<Seq<char>>,
) -> Result<Seq<char>, Seq<char>> {
    match member(object, key) {
        Some(ConfigValueView::Text(text)) => Ok(text),
        Some(_) => Err(key + " must be a valid JSON string value"@),
        None => match default_value {
            Some(value) => Ok(value),
            None => Err(key + " requires a JSON string value"@),
        },
    }
}

/// The view of an optional text slice.
pub open spec fn opt_str(value: Option<&str>) -> Option<Seq<char>> {
    match value {
        Some(value) => Some(value@),
        None => None,
    }
}

/// The text that `object` holds under `key`, or `default_value` where it
/// holds nothing there.
pub fn get_json_string(object: &ConfigObject, key: &str, default_value: Option<&str>) -> (result:
    Result<String, String>)
    ensures
        text_or_failure(result) == json_string(object@, key@, opt_str(default_value)),
{
    match get_member(object, key) {
        Some(ConfigValue::Text(text)) => Ok(text.clone()),
        Some(_) => Err(concat(key, " must be a valid JSON string value")),
        None => match default_value {
            Some(value) => Ok(String::from_str(value)),
            None => Err(concat(key, " requires a JSON string value")),
        },
    }
}

/// A port or a failure, by views.
pub open spec fn port_or_failure(result: Result<u16, String>) -> Result<u16, Seq<char>> {
    match result {
        Ok(port) => Ok(port),
        Err(error) => Err(error@),
    }
}

/// The port under `key`: the whole number from 1 to 65535 that the object
/// holds there, the default where it holds nothing, and a failure for any
/// other value and for a missing value without a default.
pub open spec fn json_u16(
    object: ConfigObjectView,
    key: Seq<char>,
    default_value: Option<u16>,
) -> Result<u16, Seq<char>> {
    match member(object, key) {
        Some(ConfigValueView::Unsigned(number)) => if number == 0 || number > 0xffff {
            Err(key + " must be between 1 and 65535"@)
        } else {
            Ok(number as u16)
        },
        Some(_) => Err(key + " must be a valid JSON integer value"@),
        None => match default_value {
            Some(value) => Ok(value),
            None => Err(key + " requires a JSON integer value"@),
        },
    }
}

/// The port that `object` holds under `key`, or `default_value` where it
/// holds nothing there.
pub fn get_json_u16(
    object: &ConfigObject,
    key: &str,
    default_value: Option<u16>,
) -> (result: Result<u16, String>)
    ensures
        port_or_failure(result) == json_u16(object@, key@, default_value),
{
    match get_member(object, key) {
        Some(ConfigValue::Unsigned(number)) => {
            if *number == 0 || *number > 0xffff {
                Err(concat(key, " must be between 1 and 65535"))
            } else {
                Ok(*number as u16)
            }
        },
        Some(_) => Err(concat(key, " must be a valid JSON integer value")),
        None => match default_value {
            Some(value) => Ok(value),
            None => Err(concat(key, " requires a JSON integer value")),
        },
    }
}

/// A load balancer that the file asks for.
#[derive(Clone, Debug, PartialEq, Eq)]
pub struct LoadBalancerConfig {
    pub namespace: String,
    pub resource_type: String,
    pub name: String,
    pub port: u16,
    pub target_port: u16,
}

/// The mathematical value of a [`LoadBalancerConfig`].
pub struct LoadBalancerConfigView {
    pub namespace: Seq<char>,
    pub resource_type: Seq<char>,
    pub name: Seq<char>,
    pub port: u16,
    pub target_port: u16,
}

impl View for LoadBalancerConfig {
    type V = LoadBalancerConfigView;

    open spec fn view(&self) -> LoadBalancerConfigView {
        LoadBalancerConfigView {
            namespace: self.namespace@,
            resource_type: self.resource_type@,
            name: self.name@,
            port: self.port,
            target_port: self.target_port,
        }
    }
}

/// A mount that the file asks for.
#[derive(Clone, Debug, PartialEq, Eq)]
pub struct MinikubeMountConfig {
    pub host_path: String,
    pub minikube_path: String,
}

/// The mathematical value of a [`MinikubeMountConfig`].
pub struct MinikubeMountConfigView {
    pub host_path: Seq<char>,
    pub minikube_path: Seq<char>,
}

impl View for MinikubeMountConfig {
    type V = MinikubeMountConfigView;

    open spec fn view(&self) -> MinikubeMountConfigView {
        MinikubeMountConfigView { host_path: self.host_path@, minikube_path: self.minikube_path@ }
    }
}

/// The load balancer that an item describes. The namespace defaults to
/// `default`, the resource type to `services`, and the target port to the
/// port; the name and the port must be there. The first member that breaks
/// a rule, in the order namespace, resource type, name, port, target port,
/// gives the failure.
pub open spec fn load_balancer_of(
    item: ConfigItemView,
) -> Result<LoadBalancerConfigView, Seq<char>> {
    match item {
        ConfigItemView::Other => Err("A load balancer specification must be a valid JSON object"@),
        ConfigItemView::Object(object) => match json_string(
            object,
            "namespace"@,
            Some("default"@),
        ) {
            Err(error) => Err(error),
            Ok(namespace) => match json_string(object, "resourceType"@, Some("services"@)) {
                Err(error) => Err(error),
                Ok(resource_type) => match json_string(object, "name"@, None) {
                    Err(error) => Err(error),
                    Ok(name) => match json_u16(object, "port"@, None) {
                        Err(error) => Err(error),
                        Ok(port) => match json_u16(object, "targetPort"@, Some(port)) {
                            Err(error) => Err(error),
                            Ok(target_port) => Ok(
                                LoadBalancerConfigView {
                                    namespace,
                                    resource_type,
                                    name,
                                    port,
                                    target_port,
                                },
                            ),
                        },
                    },
                },
            },
        },
    }
}

/// A load balancer or a failure, by views.
pub open spec fn load_balancer_or_failure(result: Result<LoadBalancerConfig, String>) -> Result<
    LoadBalancerConfigView,
    Seq<char>,
> {
    match result {
        Ok(made) => Ok(made@),
        Err(error) => Err(error@),
    }
}

/// Reads the load balancer that an item describes.
pub fn parse_load_balancer_item(item: &ConfigItem) -> (result: Result<LoadBalancerConfig, String>)
    ensures
        load_balancer_or_failure(result) == load_balancer_of(item@),
{
    match item {
        ConfigItem::Other => Err(
            String::from_str("A load balancer specification must be a valid JSON object"),
        ),
        ConfigItem::Object(object) => {
            let namespace = match get_json_string(object, "namespace", Some("default")) {
                Ok(text) => text,
                Err(error) => {
                    return Err(error);
                },
            };
            let resource_type = match get_json_string(object, "resourceType", Some("services")) {
                Ok(text) => text,
                Err(error) => {
                    return Err(error);
                },
            };
            let name = match get_json_string(object, "name", None) {
                Ok(text) => text,
                Err(error) => {
                    return Err(error);
                },
            };
            let port: u16 = match get_json_u16(object, "port", None) {
                Ok(port) => port,
                Err(error) => {
                    return Err(error);
                },
            };
            let target_port: u16 = match get_json_u16(object, "targetPort", Some(port)) {
                Ok(port) => port,
                Err(error) => {
                    return Err(error);
                },
            };
            Ok(LoadBalancerConfig { namespace, resource_type, name, port, target_port })
        },
    }
}

/// The lower-case form of an ASCII capital; any other character is itself.
pub open spec fn lower(c: char) -> char {
    if 'A' <= c <= 'Z' {
        ((c as u8) + 32) as char
    } else {
        c
    }
}

/// The text with its ASCII capitals in lower case.
pub open spec fn lowered(s: Seq<char>) -> Seq<char> {
    Seq::new(s.len(), |i: int| lower(s[i]))
}

/// The transport that a text names: `tcp` or `udp`, with or without white
/// space around it, in capitals or not.
pub open spec fn protocol_named(text: Seq<char>) -> Option<Protocol> {
    if lowered(trimmed(text)) == seq!['t', 'c', 'p'] {
        Some(Protocol::Tcp)
    } else if lowered(trimmed(text)) == seq!['u', 'd', 'p'] {
        Some(Protocol::Udp)
    } else {
        None
    }
}

/// The lower-case form of an ASCII capital; any other character itself.
fn lower_char(c: char) -> (out: char)
    ensures
        out == lower(c),
{
    if 'A' <= c && c <= 'Z' {
        ((c as u8) + 32) as char
    } else {
        c
    }
}

/// The transport that `text` names.
pub fn normalized_protocol(text: &str) -> (protocol: Option<Protocol>)
    ensures
        protocol == protocol_named(text@),
{
    let name = trim(text);
    let chars = chars_of(name.as_str());
    assert(lowered(trimmed(text@)).len() == chars.len());
    if chars.len() != 3 {
        return None;
    }
    let first = lower_char(chars[0]);
    let second = lower_char(chars[1]);
    let third = lower_char(chars[2]);
    proof {
        let low = lowered(trimmed(text@));
        assert(low.len() == 3);
        assert(low[0] == first && low[1] == second && low[2] == third);
        assert(low =~= seq![first, second, third]);
    }
    if first == 't' && second == 'c' && third == 'p' {
        Some(Protocol::Tcp)
    } else if first == 'u' && second == 'd' && third == 'p' {
        Some(Protocol::Udp)
    } else {
        None
    }
}

/// The relay that an item describes. The transport defaults to `tcp`; the
/// listening port, the host and the connect port must be there. The first
/// member that breaks a rule, in the order protocol, listening port,
/// connect host, connect port, gives the failure.
pub open spec fn relay_of(item: ConfigItemView) -> Result<NetworkRelayView, Seq<char>> {
    match item {
        ConfigItemView::Other => Err("A socat tunnel specification must be a valid JSON object"@),
        ConfigItemView::Object(object) => match json_string(object, "protocol"@, Some("tcp"@)) {
            Err(error) => Err(error),
            Ok(named) => match protocol_named(named) {
                None => Err("protocol must be either tcp or udp"@),
                Some(protocol) => match json_u16(object, "listeningPort"@, None) {
                    Err(error) => Err(error),
                    Ok(listening_port) => match json_string(object, "connectHost"@, None) {
                        Err(error) => Err(error),
                        Ok(connect_host) => match json_u16(object, "connectPort"@, None) {
                            Err(error) => Err(error),
                            Ok(connect_port) => Ok(
                                NetworkRelayView {
                                    protocol,
                                    listening_port,
                                    connect_host,
                                    connect_port,
                                },
                            ),
                        },
                    },
                },
            },
        },
    }
}

/// A relay or a failure, by views.
pub open spec fn relay_or_failure(result: Result<NetworkRelay, String>) -> Result<
    NetworkRelayView,
    Seq<char>,
> {
    match result {
        Ok(made) => Ok(made@),
        Err(error) => Err(error@),
    }
}

/// Reads the relay that an item describes.
pub fn parse_socat_tunnel_item(item: &ConfigItem) -> (result: Result<NetworkRelay, String>)
    ensures
        relay_or_failure(result) == relay_of(item@),
{
    match item {
        ConfigItem::Other => Err(
            String::from_str("A socat tunnel specification must be a valid JSON object"),
        ),
        ConfigItem::Object(object) => {
            let named = match get_json_string(object, "protocol", Some("tcp")) {
                Ok(text) => text,
                Err(error) => {
                    return Err(error);
                },
            };
            let protocol = match normalized_protocol(named.as_str()) {
                Some(protocol) => protocol,
                None => {
                    return Err(String::from_str("protocol must be either tcp or udp"));
                },
            };
            let listening_port: u16 = match get_json_u16(object, "listeningPort", None) {
                Ok(port) => port,
                Err(error) => {
                    return Err(error);
                },
            };
            let connect_host = match get_json_string(object, "connectHost", None) {
                Ok(text) => text,
                Err(error) => {
                    return Err(error);
                },
            };
            let connect_port: u16 = match get_json_u16(object, "connectPort", None) {
                Ok(port) => port,
                Err(error) => {
                    return Err(error);
                },
            };
            Ok(NetworkRelay { protocol, listening_port, connect_host, connect_port })
        },
    }
}

/// The mount that an item describes: both paths must be there. The host
/// path is read first.
pub open spec fn mount_of(item: ConfigItemView) -> Result<MinikubeMountConfigView, Seq<char>> {
    match item {
        ConfigItemView::Other => Err("A minikube mount specification must be a valid JSON object"@),
        ConfigItemView::Object(object) => match json_string(object, "hostPath"@, None) {
            Err(error) => Err(error),
            Ok(host_path) => match json_string(object, "minikubePath"@, None) {
                Err(error) => Err(error),
                Ok(minikube_path) => Ok(MinikubeMountConfigView { host_path, minikube_path }),
            },
        },
    }
}

/// A mount or a failure, by views.
pub open spec fn mount_or_failure(result: Result<MinikubeMountConfig, String>) -> Result<
    MinikubeMountConfigView,
    Seq<char>,
> {
    match result {
        Ok(made) => Ok(made@),
        Err(error) => Err(error@),
    }
}

/// Reads the mount that an item describes.
pub fn parse_minikube_mount_item(item: &ConfigItem) -> (result: Result<MinikubeMountConfig, String>)
    ensures
        mount_or_failure(result) == mount_of(item@),
{
    match item {
        ConfigItem::Other => Err(
            String::from_str("A minikube mount specification must be a valid JSON object"),
        ),
        ConfigItem::Object(object) => {
            let host_path = match get_json_string(object, "hostPath", None) {
                Ok(text) => text,
                Err(error) => {
                    return Err(error);
                },
            };
            let minikube_path = match get_json_string(object, "minikubePath", None) {
                Ok(text) => text,
                Err(error) => {
                    return Err(error);
                },
            };
            Ok(MinikubeMountConfig { host_path, minikube_path })
        },
    }
}

/// What the items of a section come to under the reading `read` of one
/// item: what each item gives, in order, or the failure of the first item
/// that has one.
pub open spec fn items_read<T>(
    items: Seq<ConfigItemView>,
    read: spec_fn(ConfigItemView) -> Result<T, Seq<char>>,
) -> Result<Seq<T>, Seq<char>>
    decreases items.len(),
{
    if items.len() == 0 {
        Ok(Seq::empty())
    } else {
        match items_read(items.drop_last(), read) {
            Err(error) => Err(error),
            Ok(before) => match read(items.last()) {
                Err(error) => Err(error),
                Ok(made) => Ok(before.push(made)),
            },
        }
    }
}

/// What a section comes to: nothing where the file lacks it, the failure
/// `not_an_array` where it is no array, and else what its items come to.
pub open spec fn section_read<T>(
    section: Option<ConfigSectionView>,
    not_an_array: Seq<char>,
    read: spec_fn(ConfigItemView) -> Result<T, Seq<char>>,
) -> Result<Option<Seq<T>>, Seq<char>> {
    match section {
        None => Ok(None),
        Some(ConfigSectionView::Other) => Err(not_an_array),
        Some(ConfigSectionView::Items(items)) => match items_read(items, read) {
            Ok(made) => Ok(Some(made)),
            Err(error) => Err(error),
        },
    }
}

/// The reading of one item as a load balancer.
pub open spec fn load_balancer_reader() -> spec_fn(ConfigItemView) -> Result<
    LoadBalancerConfigView,
    Seq<char>,
> {
    |item: ConfigItemView| load_balancer_of(item)
}

/// The reading of one item as a relay.
pub open spec fn relay_reader() -> spec_fn(ConfigItemView) -> Result<NetworkRelayView, Seq<char>> {
    |item: ConfigItemView| relay_of(item)
}

/// The reading of one item as a mount.
pub open spec fn mount_reader() -> spec_fn(ConfigItemView) -> Result<
    MinikubeMountConfigView,
    Seq<char>,
> {
    |item: ConfigItemView| mount_of(item)
}

/// The views of the load balancers of a section.
pub open spec fn load_balancers_view(
    result: Result<Option<Vec<LoadBalancerConfig>>, String>,
) -> Result<Option<Seq<LoadBalancerConfigView>>, Seq<char>> {
    match result {
        Ok(Some(made)) => Ok(Some(Seq::new(made@.len(), |i: int| made@[i]@))),
        Ok(None) => Ok(None),
        Err(error) => Err(error@),
    }
}

/// The load balancers that the file asks for under `loadBalancers`;
/// `None` where it lacks the key.
#[verifier::loop_isolation(false)]
pub fn parse_load_balancers(config: &InitConfig) -> (result: Result<
    Option<Vec<LoadBalancerConfig>>,
    String,
>)
    ensures
        load_balancers_view(result) == section_read(
            section_view(config.load_balancers),
            "The loadBalancers key requires an array of load balancer specifications"@,
            load_balancer_reader(),
        ),
{
    let items = match &config.load_balancers {
        None => {
            return Ok(None);
        },
        Some(ConfigSection::Other) => {
            return Err(
                String::from_str(
                    "The loadBalancers key requires an array of load balancer specifications",
                ),
            );
        },
        Some(ConfigSection::Items(items)) => items,
    };
    let ghost read = load_balancer_reader();
    let mut made: Vec<LoadBalancerConfig> = Vec::new();
    let mut i: usize = 0;
    proof {
        assert(item_views(items@).take(0) =~= Seq::<ConfigItemView>::empty());
        assert(Seq::new(made@.len(), |k: int| made@[k]@) =~= Seq::<
            LoadBalancerConfigView,
        >::empty());
    }
    while i < items.len()
        invariant
            i <= items.len(),
            items_read(item_views(items@).take(i as int), read) == Ok::<
                Seq<LoadBalancerConfigView>,
                Seq<char>,
            >(Seq::new(made@.len(), |k: int| made@[k]@)),
        decreases items.len() - i,
    {
        proof {
            assert(item_views(items@).take(i + 1).drop_last() =~= item_views(items@).take(
                i as int,
            ));
            assert(item_views(items@).take(i + 1).last() == items@[i as int]@);
        }
        match parse_load_balancer_item(&items[i]) {
            Ok(one) => {
                let ghost before = Seq::new(made@.len(), |k: int| made@[k]@);
                made.push(one);
                assert(Seq::new(made@.len(), |k: int| made@[k]@) =~= before.push(one@));
            },
            Err(error) => {
                proof {
                    lemma_items_read_fails(item_views(items@), read, i + 1);
                }
                return Err(error);
            },
        }
        i += 1;
    }
    proof {
        assert(item_views(items@).take(items.len() as int) =~= item_views(items@));
    }
    Ok(Some(made))
}

/// Once a beginning of the items fails, all of them fail in the same way.
pub proof fn lemma_items_read_fails<T>(
    items: Seq<ConfigItemView>,
    read: spec_fn(ConfigItemView) -> Result<T, Seq<char>>,
    n: int,
)
    requires
        0 <= n <= items.len(),
        items_read(items.take(n), read) is Err,
    ensures
        items_read(items, read) == items_read(items.take(n), read),
    decreases items.len() - n,
{
    if n == items.len() {
        assert(items.take(n) =~= items);
    } else {
        assert(items.take(n + 1).drop_last() =~= items.take(n));
        lemma_items_read_fails(items, read, n + 1);
    }
}

/// The views of the relays of a section.
pub open spec fn relays_view(result: Result<Option<Vec<NetworkRelay>>, String>) -> Result<
    Option<Seq<NetworkRelayView>>,
    Seq<char>,
> {
    match result {
        Ok(Some(made)) => Ok(Some(Seq::new(made@.len(), |i: int| made@[i]@))),
        Ok(None) => Ok(None),
        Err(error) => Err(error@),
    }
}

/// The relays that the file asks for under `socatTunnels`; `None` where it
/// lacks the key.
#[verifier::loop_isolation(false)]
pub fn parse_socat_tunnels(
    config: &InitConfig,
) -> (result: Result<Option<Vec<NetworkRelay>>, String>)
    ensures
        relays_view(result) == section_read(
            section_view(config.socat_tunnels),
            "The socatTunnels key requires an array of socat tunnel specifications"@,
            relay_reader(),
        ),
{
    let items = match &config.socat_tunnels {
        None => {
            return Ok(None);
        },
        Some(ConfigSection::Other) => {
            return Err(
                String::from_str(
                    "The socatTunnels key requires an array of socat tunnel specifications",
                ),
            );
        },
        Some(ConfigSection::Items(items)) => items,
    };
    let ghost read = relay_reader();
    let mut made: Vec<NetworkRelay> = Vec::new();
    let mut i: usize = 0;
    proof {
        assert(item_views(items@).take(0) =~= Seq::<ConfigItemView>::empty());
        assert(Seq::new(made@.len(), |k: int| made@[k]@) =~= Seq::<NetworkRelayView>::empty());
    }
    while i < items.len()
        invariant
            i <= items.len(),
            items_read(item_views(items@).take(i as int), read) == Ok::<
                Seq<NetworkRelayView>,
                Seq<char>,
            >(Seq::new(made@.len(), |k: int| made@[k]@)),
        decreases items.len() - i,
    {
        proof {
            assert(item_views(items@).take(i + 1).drop_last() =~= item_views(items@).take(
                i as int,
            ));
            assert(item_views(items@).take(i + 1).last() == items@[i as int]@);
        }
        match parse_socat_tunnel_item(&items[i]) {
            Ok(one) => {
                let ghost before = Seq::new(made@.len(), |k: int| made@[k]@);
                made.push(one);
                assert(Seq::new(made@.len(), |k: int| made@[k]@) =~= before.push(one@));
            },
            Err(error) => {
                proof {
                    lemma_items_read_fails(item_views(items@), read, i + 1);
                }
                return Err(error);
            },
        }
        i += 1;
    }
    proof {
        assert(item_views(items@).take(items.len() as int) =~= item_views(items@));
    }
    Ok(Some(made))
}

/// The views of the mounts of a section.
pub open spec fn mounts_view(result: Result<Option<Vec<MinikubeMountConfig>>, String>) -> Result<
    Option<Seq<MinikubeMountConfigView>>,
    Seq<char>,
> {
    match result {
        Ok(Some(made)) => Ok(Some(Seq::new(made@.len(), |i: int| made@[i]@))),
        Ok(None) => Ok(None),
        Err(error) => Err(error@),
    }
}

/// The mounts that the file asks for under `minikubeMounts`; `None` where
/// it lacks the key.
#[verifier::loop_isolation(false)]
pub fn parse_minikube_mounts(config: &InitConfig) -> (result: Result<
    Option<Vec<MinikubeMountConfig>>,
    String,
>)
    ensures
        mounts_view(result) == section_read(
            section_view(config.minikube_mounts),
            "The minikubeMounts key requires an array of minikube mount specifications"@,
            mount_reader(),
        ),
{
    let items = match &config.minikube_mounts {
        None => {
            return Ok(None);
        },
        Some(ConfigSection::Other) => {
            return Err(
                String::from_str(
                    "The minikubeMounts key requires an array of minikube mount specifications",
                ),
            );
        },
        Some(ConfigSection::Items(items)) => items,
    };
    let ghost read = mount_reader();
    let mut made: Vec<MinikubeMountConfig> = Vec::new();
    let mut i: usize = 0;
    proof {
        assert(item_views(items@).take(0) =~= Seq::<ConfigItemView>::empty());
        assert(Seq::new(made@.len(), |k: int| made@[k]@) =~= Seq::<
            MinikubeMountConfigView,
        >::empty());
    }
    while i < items.len()
        invariant
            i <= items.len(),
            items_read(item_views(items@).take(i as int), read) == Ok::<
                Seq<MinikubeMountConfigView>,
                Seq<char>,
            >(Seq::new(made@.len(), |k: int| made@[k]@)),
        decreases items.len() - i,
    {
        proof {
            assert(item_views(items@).take(i + 1).drop_last() =~= item_views(items@).take(
                i as int,
            ));
            assert(item_views(items@).take(i + 1).last() == items@[i as int]@);
        }
        match parse_minikube_mount_item(&items[i]) {
            Ok(one) => {
                let ghost before = Seq::new(made@.len(), |k: int| made@[k]@);
                made.push(one);
                assert(Seq::new(made@.len(), |k: int| made@[k]@) =~= before.push(one@));
            },
            Err(error) => {
                proof {
                    lemma_items_read_fails(item_views(items@), read, i + 1);
                }
                return Err(error);
            },
        }
        i += 1;
    }
    proof {
        assert(item_views(items@).take(items.len() as int) =~= item_views(items@));
    }
    Ok(Some(made))
}

/// The view of an optional text or a failure.
pub open spec fn host_view(result: Result<Option<String>, String>) -> Result<
    Option<Seq<char>>,
    Seq<char>,
> {
    match result {
        Ok(host) => Ok(opt_text(host)),
        Err(error) => Err(error@),
    }
}

/// The host that the file sets for new relays under
/// `defaultSocatConnectHost`: `None` where it lacks the key, and a failure
/// where the value is no string.
pub fn parse_default_connect_host(config: &InitConfig) -> (result: Result<Option<String>, String>)
    ensures
        host_view(result) == match config.default_socat_connect_host {
            None => Ok::<Option<Seq<char>>, Seq<char>>(None),
            Some(ConfigValue::Text(host)) => Ok(Some(host@)),
            Some(_) => Err("defaultSocatConnectHost must be a valid JSON string value"@),
        },
{
    match &config.default_socat_connect_host {
        None => Ok(None),
        Some(ConfigValue::Text(host)) => Ok(Some(host.clone())),
        Some(_) => Err(
            String::from_str("defaultSocatConnectHost must be a valid JSON string value"),
        ),
    }
}

/// The path at which the file is looked for when none was named: beside
/// the working directory, with the name of the environment between the
/// name of the tool and the ending where an environment was set.
pub open spec fn default_init_file_path(environment: Option<Seq<char>>) -> Seq<char> {
    match environment {
        Some(name) => "./kube-minion"@ + "."@ + name + ".json"@,
        None => "./kube-minion"@ + ".json"@,
    }
}

/// The path at which the file is looked for: the one that was named, or
/// else the default for the environment.
pub fn init_file_path(path: Option<String>, environment: Option<&str>) -> (chosen: String)
    ensures
        chosen@ == match path {
            Some(path) => path@,
            None => default_init_file_path(opt_str(environment)),
        },
{
    match path {
        Some(path) => path,
        None => {
            let mut chosen = String::from_str("./kube-minion");
            match environment {
                Some(name) => {
                    chosen.append(".");
                    chosen.append(name);
                },
                None => {},
            }
            chosen.append(".json");
            chosen
        },
    }
}

/// The name of the load balancer that was made for a resource: the name of
/// the resource with `-lb` after it.
pub fn load_balancer_name(config: &LoadBalancerConfig) -> (name: String)
    ensures
        name@ == config.name@ + "-lb"@,
{
    concat(config.name.as_str(), "-lb")
}

} // verus!
