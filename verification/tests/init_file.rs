use kube_minion::init_file::{
    get_json_string, get_json_u16, get_member, init_file_path, load_balancer_name,
    normalized_protocol, parse_default_connect_host, parse_load_balancer_item,
    parse_load_balancers, parse_minikube_mount_item, parse_minikube_mounts,
    parse_socat_tunnel_item, parse_socat_tunnels, ConfigItem, ConfigObject, ConfigSection,
    ConfigValue, InitConfig, LoadBalancerConfig, MinikubeMountConfig,
};
use kube_minion::socat_tunnel::{NetworkRelay, Protocol};

fn text(s: &str) -> ConfigValue {
    ConfigValue::Text(String::from(s))
}

fn object(members: &[(&str, ConfigValue)]) -> ConfigObject {
    ConfigObject {
        members: members
            .iter()
            .map(|(key, value)| (String::from(*key), value.clone()))
            .collect(),
    }
}

fn item(members: &[(&str, ConfigValue)]) -> ConfigItem {
    ConfigItem::Object(object(members))
}

fn empty_config() -> InitConfig {
    InitConfig {
        load_balancers: None,
        socat_tunnels: None,
        minikube_mounts: None,
        default_socat_connect_host: None,
    }
}

#[test]
fn members_are_found_by_their_key() {
    let made = object(&[
        ("a", text("x")),
        ("port", ConfigValue::Unsigned(80)),
        ("b", ConfigValue::Other),
    ]);
    assert_eq!(get_member(&made, "port"), Some(&ConfigValue::Unsigned(80)));
    assert_eq!(get_member(&made, "b"), Some(&ConfigValue::Other));
    assert_eq!(get_member(&made, "c"), None);
    assert_eq!(get_member(&made, "A"), None);
}

#[test]
fn strings_have_defaults_and_failures() {
    let made = object(&[("name", text("web")), ("port", ConfigValue::Unsigned(80))]);
    assert_eq!(
        get_json_string(&made, "name", None),
        Ok(String::from("web"))
    );
    assert_eq!(
        get_json_string(&made, "namespace", Some("default")),
        Ok(String::from("default"))
    );
    assert_eq!(
        get_json_string(&made, "namespace", None),
        Err(String::from("namespace requires a JSON string value"))
    );
    assert_eq!(
        get_json_string(&made, "port", Some("x")),
        Err(String::from("port must be a valid JSON string value"))
    );
}

#[test]
fn ports_have_defaults_bounds_and_failures() {
    let made = object(&[
        ("port", ConfigValue::Unsigned(80)),
        ("top", ConfigValue::Unsigned(65535)),
        ("zero", ConfigValue::Unsigned(0)),
        ("big", ConfigValue::Unsigned(65536)),
        ("name", text("80")),
        ("odd", ConfigValue::Other),
    ]);
    assert_eq!(get_json_u16(&made, "port", None), Ok(80));
    assert_eq!(get_json_u16(&made, "top", Some(1)), Ok(65535));
    assert_eq!(get_json_u16(&made, "targetPort", Some(8080)), Ok(8080));
    assert_eq!(
        get_json_u16(&made, "zero", None),
        Err(String::from("zero must be between 1 and 65535"))
    );
    assert_eq!(
        get_json_u16(&made, "big", Some(1)),
        Err(String::from("big must be between 1 and 65535"))
    );
    assert_eq!(
        get_json_u16(&made, "name", None),
        Err(String::from("name must be a valid JSON integer value"))
    );
    assert_eq!(
        get_json_u16(&made, "odd", None),
        Err(String::from("odd must be a valid JSON integer value"))
    );
    assert_eq!(
        get_json_u16(&made, "missing", None),
        Err(String::from("missing requires a JSON integer value"))
    );
}

#[test]
fn a_load_balancer_takes_its_defaults() {
    assert_eq!(
        parse_load_balancer_item(&item(&[
            ("name", text("web")),
            ("port", ConfigValue::Unsigned(80))
        ])),
        Ok(LoadBalancerConfig {
            namespace: String::from("default"),
            resource_type: String::from("services"),
            name: String::from("web"),
            port: 80,
            target_port: 80,
        })
    );
    assert_eq!(
        parse_load_balancer_item(&item(&[
            ("targetPort", ConfigValue::Unsigned(8080)),
            ("port", ConfigValue::Unsigned(80)),
            ("name", text("api")),
            ("resourceType", text("deployment")),
            ("namespace", text("tools")),
        ])),
        Ok(LoadBalancerConfig {
            namespace: String::from("tools"),
            resource_type: String::from("deployment"),
            name: String::from("api"),
            port: 80,
            target_port: 8080,
        })
    );
}

#[test]
fn a_load_balancer_fails_at_its_first_broken_member() {
    assert_eq!(
        parse_load_balancer_item(&ConfigItem::Other),
        Err(String::from(
            "A load balancer specification must be a valid JSON object"
        ))
    );
    assert_eq!(
        parse_load_balancer_item(&item(&[("port", ConfigValue::Unsigned(80))])),
        Err(String::from("name requires a JSON string value"))
    );
    assert_eq!(
        parse_load_balancer_item(&item(&[("name", text("web"))])),
        Err(String::from("port requires a JSON integer value"))
    );
    assert_eq!(
        parse_load_balancer_item(&item(&[
            ("namespace", ConfigValue::Unsigned(1)),
            ("name", ConfigValue::Other)
        ])),
        Err(String::from("namespace must be a valid JSON string value"))
    );
    assert_eq!(
        parse_load_balancer_item(&item(&[
            ("name", text("web")),
            ("port", ConfigValue::Unsigned(80)),
            ("targetPort", ConfigValue::Unsigned(0)),
        ])),
        Err(String::from("targetPort must be between 1 and 65535"))
    );
}

#[test]
fn protocols_are_read_without_regard_to_case_and_space() {
    assert_eq!(normalized_protocol("tcp"), Some(Protocol::Tcp));
    assert_eq!(normalized_protocol(" UDP\n"), Some(Protocol::Udp));
    assert_eq!(normalized_protocol("Tcp"), Some(Protocol::Tcp));
    assert_eq!(normalized_protocol("tcp4"), None);
    assert_eq!(normalized_protocol("t cp"), None);
    assert_eq!(normalized_protocol(""), None);
    assert_eq!(normalized_protocol("sctp"), None);
    assert_eq!(
        normalized_protocol("TCP".to_lowercase().as_str()),
        Some(Protocol::Tcp)
    );
}

#[test]
fn a_relay_takes_tcp_unless_told_otherwise() {
    assert_eq!(
        parse_socat_tunnel_item(&item(&[
            ("listeningPort", ConfigValue::Unsigned(9000)),
            ("connectHost", text("localhost")),
            ("connectPort", ConfigValue::Unsigned(8080)),
        ])),
        Ok(NetworkRelay::new(Protocol::Tcp, 9000, "localhost", 8080))
    );
    assert_eq!(
        parse_socat_tunnel_item(&item(&[
            ("protocol", text(" UDP ")),
            ("listeningPort", ConfigValue::Unsigned(53)),
            ("connectHost", text("10.0.0.1")),
            ("connectPort", ConfigValue::Unsigned(5353)),
        ])),
        Ok(NetworkRelay::new(Protocol::Udp, 53, "10.0.0.1", 5353))
    );
}

#[test]
fn a_relay_fails_at_its_first_broken_member() {
    assert_eq!(
        parse_socat_tunnel_item(&ConfigItem::Other),
        Err(String::from(
            "A socat tunnel specification must be a valid JSON object"
        ))
    );
    assert_eq!(
        parse_socat_tunnel_item(&item(&[("protocol", text("icmp"))])),
        Err(String::from("protocol must be either tcp or udp"))
    );
    assert_eq!(
        parse_socat_tunnel_item(&item(&[("protocol", ConfigValue::Unsigned(6))])),
        Err(String::from("protocol must be a valid JSON string value"))
    );
    assert_eq!(
        parse_socat_tunnel_item(&item(&[("connectHost", text("h"))])),
        Err(String::from("listeningPort requires a JSON integer value"))
    );
    assert_eq!(
        parse_socat_tunnel_item(&item(&[("listeningPort", ConfigValue::Unsigned(1))])),
        Err(String::from("connectHost requires a JSON string value"))
    );
    assert_eq!(
        parse_socat_tunnel_item(&item(&[
            ("listeningPort", ConfigValue::Unsigned(1)),
            ("connectHost", text("h"))
        ])),
        Err(String::from("connectPort requires a JSON integer value"))
    );
}

#[test]
fn a_mount_needs_both_paths() {
    assert_eq!(
        parse_minikube_mount_item(&item(&[
            ("minikubePath", text("/mnt")),
            ("hostPath", text("/data"))
        ])),
        Ok(MinikubeMountConfig {
            host_path: String::from("/data"),
            minikube_path: String::from("/mnt")
        })
    );
    assert_eq!(
        parse_minikube_mount_item(&item(&[("minikubePath", text("/mnt"))])),
        Err(String::from("hostPath requires a JSON string value"))
    );
    assert_eq!(
        parse_minikube_mount_item(&item(&[("hostPath", text("/data"))])),
        Err(String::from("minikubePath requires a JSON string value"))
    );
    assert_eq!(
        parse_minikube_mount_item(&ConfigItem::Other),
        Err(String::from(
            "A minikube mount specification must be a valid JSON object"
        ))
    );
}

#[test]
fn sections_that_the_file_lacks_give_nothing() {
    let config = empty_config();
    assert_eq!(parse_load_balancers(&config), Ok(None));
    assert_eq!(parse_socat_tunnels(&config), Ok(None));
    assert_eq!(parse_minikube_mounts(&config), Ok(None));
    assert_eq!(parse_default_connect_host(&config), Ok(None));
}

#[test]
fn sections_must_be_arrays() {
    let config = InitConfig {
        load_balancers: Some(ConfigSection::Other),
        socat_tunnels: Some(ConfigSection::Other),
        minikube_mounts: Some(ConfigSection::Other),
        default_socat_connect_host: Some(ConfigValue::Unsigned(1)),
    };
    assert_eq!(
        parse_load_balancers(&config),
        Err(String::from(
            "The loadBalancers key requires an array of load balancer specifications"
        ))
    );
    assert_eq!(
        parse_socat_tunnels(&config),
        Err(String::from(
            "The socatTunnels key requires an array of socat tunnel specifications"
        ))
    );
    assert_eq!(
        parse_minikube_mounts(&config),
        Err(String::from(
            "The minikubeMounts key requires an array of minikube mount specifications"
        ))
    );
    assert_eq!(
        parse_default_connect_host(&config),
        Err(String::from(
            "defaultSocatConnectHost must be a valid JSON string value"
        ))
    );
}

#[test]
fn sections_give_their_items_in_order() {
    let config = InitConfig {
        load_balancers: Some(ConfigSection::Items(vec![
            item(&[("name", text("a")), ("port", ConfigValue::Unsigned(1))]),
            item(&[("name", text("b")), ("port", ConfigValue::Unsigned(2))]),
        ])),
        socat_tunnels: Some(ConfigSection::Items(Vec::new())),
        minikube_mounts: Some(ConfigSection::Items(vec![item(&[
            ("hostPath", text("/h")),
            ("minikubePath", text("/m")),
        ])])),
        default_socat_connect_host: Some(text("host.minikube.internal")),
    };
    let load_balancers = parse_load_balancers(&config).unwrap().unwrap();
    assert_eq!(load_balancers.len(), 2);
    assert_eq!(
        (load_balancers[0].name.as_str(), load_balancers[0].port),
        ("a", 1)
    );
    assert_eq!(
        (
            load_balancers[1].name.as_str(),
            load_balancers[1].target_port
        ),
        ("b", 2)
    );
    assert_eq!(parse_socat_tunnels(&config), Ok(Some(Vec::new())));
    assert_eq!(
        parse_minikube_mounts(&config),
        Ok(Some(vec![MinikubeMountConfig {
            host_path: String::from("/h"),
            minikube_path: String::from("/m"),
        }]))
    );
    assert_eq!(
        parse_default_connect_host(&config),
        Ok(Some(String::from("host.minikube.internal")))
    );
}

#[test]
fn the_first_broken_item_fails_its_section() {
    let config = InitConfig {
        socat_tunnels: Some(ConfigSection::Items(vec![
            item(&[
                ("listeningPort", ConfigValue::Unsigned(1)),
                ("connectHost", text("h")),
                ("connectPort", ConfigValue::Unsigned(2)),
            ]),
            item(&[("protocol", text("ip"))]),
            ConfigItem::Other,
        ])),
        ..empty_config()
    };
    assert_eq!(
        parse_socat_tunnels(&config),
        Err(String::from("protocol must be either tcp or udp"))
    );
}

#[test]
fn the_file_is_looked_for_beside_the_working_directory() {
    assert_eq!(init_file_path(None, None), "./kube-minion.json");
    assert_eq!(
        init_file_path(None, Some("staging")),
        "./kube-minion.staging.json"
    );
    assert_eq!(
        init_file_path(Some(String::from("/etc/km.json")), Some("staging")),
        "/etc/km.json"
    );
}

#[test]
fn a_load_balancer_is_named_after_its_resource() {
    let config = LoadBalancerConfig {
        namespace: String::from("default"),
        resource_type: String::from("services"),
        name: String::from("web"),
        port: 80,
        target_port: 80,
    };
    assert_eq!(load_balancer_name(&config), "web-lb");
}
