//! What the operations look like from outside: for each a label, the action
//! that the label stands for, and whether the session ends after it. The
//! entries of the two toggles are made fresh from the state that was just
//! observed, and name the step that leads out of it.

use crate::dashboard::{check_kubernetes_dashboard, dashboard_checked};
use crate::launcher::{can_launch, LaunchRequest, LaunchResult};
use crate::minikube_tunnel::{check_minikube_tunnel, tunnel_held};
use crate::results::{outcome_view, OutcomeView};
use crate::scanner::system_processes;
use crate::text::concat;
use vstd::prelude::*;

verus! {

/// What choosing an entry does.
#[derive(Clone, Copy, PartialEq, Eq, Structural, Debug)]
pub enum MenuAction {
    /// Nothing: the entry is a heading, or only ends the session.
    Nothing,
    /// Removes the dashboard's load balancer where `running`, else makes it.
    ToggleDashboard { running: bool },
    /// Stops the cluster tunnel where `running`, else starts it.
    ToggleTunnel { running: bool },
    SetBindAddress,
    CreateLoadBalancer,
    FetchLoadBalancers,
    DeleteLoadBalancer,
    DeleteAllLoadBalancers,
    CreateSocatTunnel,
    FetchSocatTunnels,
    DeleteSocatTunnel,
    DeleteAllSocatTunnels,
    SetDefaultConnectHost,
    CreateMinikubeMount,
    FetchMinikubeMounts,
    DeleteMinikubeMount,
    DeleteAllMinikubeMounts,
    CleanUp,
    CleanUpInitFile,
}

/// One entry of the menu.
#[derive(Clone, Debug, PartialEq, Eq)]
pub struct MenuEntry {
    pub label: String,
    pub action: MenuAction,
    /// Whether the session ends once the action was taken.
    pub is_terminal: bool,
}

/// The mathematical value of a [`MenuEntry`].
pub struct MenuEntryView {
    pub label: Seq<char>,
    pub action: MenuAction,
    pub is_terminal: bool,
}

impl View for MenuEntry {
    type V = MenuEntryView;

    open spec fn view(&self) -> MenuEntryView {
        MenuEntryView { label: self.label@, action: self.action, is_terminal: self.is_terminal }
    }
}

/// The views of a menu's entries, in order.
pub open spec fn entry_views(entries: Seq<MenuEntry>) -> Seq<MenuEntryView> {
    Seq::new(entries.len(), |i: int| entries[i]@)
}

/// An entry that does not end the session.
pub open spec fn plain_entry(label: Seq<char>, action: MenuAction) -> MenuEntryView {
    MenuEntryView { label, action, is_terminal: false }
}

/// The heading of a group of entries: a label that begins with `# ` and
/// does nothing.
pub open spec fn heading(title: Seq<char>) -> MenuEntryView {
    plain_entry("# "@ + title, MenuAction::Nothing)
}

/// The entry of the dashboard's load balancer: it names the step out of
/// the observed state, removal where it runs and creation where it does
/// not.
pub open spec fn dashboard_entry(running: bool) -> MenuEntryView {
    plain_entry(
        if running {
            "Delete"@
        } else {
            "Create"@
        } + " kubernetes dashboard load balancer"@,
        MenuAction::ToggleDashboard { running },
    )
}

/// The entry of the cluster tunnel: it names the step out of the observed
/// state, stopping where it runs and starting where it does not.
pub open spec fn tunnel_entry(running: bool) -> MenuEntryView {
    plain_entry(
        if running {
            "Stop"@
        } else {
            "Start"@
        } + " minikube tunnel"@,
        MenuAction::ToggleTunnel { running },
    )
}

/// The whole menu under the observed states of the two toggles.
pub open spec fn menu_entries(dashboard_running: bool, tunnel_running: bool) -> Seq<MenuEntryView> {
    seq![
        heading("Dashboard"@),
        dashboard_entry(dashboard_running),
        heading("Minikube tunnel"@),
        tunnel_entry(tunnel_running),
        heading("Load balancers"@),
        plain_entry("Create load balancer"@, MenuAction::CreateLoadBalancer),
        plain_entry("List load balancers"@, MenuAction::FetchLoadBalancers),
        plain_entry("Delete load balancer"@, MenuAction::DeleteLoadBalancer),
        plain_entry("Delete all load balancers"@, MenuAction::DeleteAllLoadBalancers),
        heading("Socat tunnels"@),
        plain_entry("Create socat tunnel"@, MenuAction::CreateSocatTunnel),
        plain_entry("List socat tunnels"@, MenuAction::FetchSocatTunnels),
        plain_entry("Delete socat tunnel"@, MenuAction::DeleteSocatTunnel),
        plain_entry("Delete all socat tunnels"@, MenuAction::DeleteAllSocatTunnels),
        plain_entry("Set socat default connect host"@, MenuAction::SetDefaultConnectHost),
        heading("Minikube mounts"@),
        plain_entry("Create minikube mount"@, MenuAction::CreateMinikubeMount),
        plain_entry("List minikube mounts"@, MenuAction::FetchMinikubeMounts),
        plain_entry("Delete minikube mount"@, MenuAction::DeleteMinikubeMount),
        plain_entry("Delete all minikube mounts"@, MenuAction::DeleteAllMinikubeMounts),
        heading("Clean up and exit"@),
        MenuEntryView {
            label: "Clean up and exit"@,
            action: MenuAction::CleanUp,
            is_terminal: true,
        },
        MenuEntryView {
            label: "Exit without cleaning up"@,
            action: MenuAction::Nothing,
            is_terminal: true,
        },
    ]
}

/// An entry that does not end the session.
fn entry(label: &str, action: MenuAction) -> (entry: Result<MenuEntry, String>)
    ensures
        entry matches Ok(made) && made@ == plain_entry(label@, action),
{
    Ok(MenuEntry { label: String::from_str(label), action, is_terminal: false })
}

/// The heading of a group of entries.
fn heading_entry(title: &str) -> (entry: MenuEntry)
    ensures
        entry@ == heading(title@),
{
    MenuEntry { label: concat("# ", title), action: MenuAction::Nothing, is_terminal: false }
}

/// The entry of the dashboard's load balancer under the observed state.
pub fn kubernetes_dashboard_option(running: bool) -> (entry: MenuEntry)
    ensures
        entry@ == dashboard_entry(running),
{
    let verb = if running {
        "Delete"
    } else {
        "Create"
    };
    MenuEntry {
        label: concat(verb, " kubernetes dashboard load balancer"),
        action: MenuAction::ToggleDashboard { running },
        is_terminal: false,
    }
}

/// The entry of the cluster tunnel under the observed state.
pub fn minikube_tunnel_option(running: bool) -> (entry: MenuEntry)
    ensures
        entry@ == tunnel_entry(running),
{
    let verb = if running {
        "Stop"
    } else {
        "Start"
    };
    MenuEntry {
        label: concat(verb, " minikube tunnel"),
        action: MenuAction::ToggleTunnel { running },
        is_terminal: false,
    }
}

/// The entry of the dashboard's load balancer: the cluster is asked for it
/// now, and the entry names the step out of the state that the answer
/// shows.
pub fn build_kubernetes_dashboard_option<L: Fn(LaunchRequest) -> LaunchResult>(
    launch: &L,
) -> (entry: Result<MenuEntry, String>)
    requires
        can_launch(launch),
    ensures
        entry matches Ok(made) && exists|checked: OutcomeView|
            dashboard_checked(launch, checked) && made@ == dashboard_entry(checked is Ok),
{
    let checked = check_kubernetes_dashboard(launch);
    let running = checked.is_ok();
    let made = kubernetes_dashboard_option(running);
    assert(dashboard_checked(launch, outcome_view(checked)) && made@ == dashboard_entry(
        outcome_view(checked) is Ok,
    ));
    Ok(made)
}

/// The failure to make the tunnel's entry for want of the tunnel's state.
pub open spec fn tunnel_entry_failure(error: Seq<char>) -> Seq<char> {
    "Error in build_minikube_tunnel_option: "@ + error
}

/// The entry of the cluster tunnel for what the look for it gave.
pub fn minikube_tunnel_option_for(
    looked: Result<bool, String>,
) -> (entry: Result<MenuEntry, String>)
    ensures
        match looked {
            Ok(running) => entry matches Ok(made) && made@ == tunnel_entry(running),
            Err(error) => entry matches Err(text) && text@ == tunnel_entry_failure(error@),
        },
{
    match looked {
        Ok(running) => Ok(minikube_tunnel_option(running)),
        Err(error) => Err(concat("Error in build_minikube_tunnel_option: ", error.as_str())),
    }
}

/// The entry of the cluster tunnel: its process is looked for now, and the
/// entry names the step out of the state that was found.
pub fn build_minikube_tunnel_option() -> (entry: Result<MenuEntry, String>)
    ensures
        entry matches Ok(made) && exists|sys: sysinfo::System|
            made@ == tunnel_entry(tunnel_held(#[trigger] system_processes(sys))),
{
    let looked = check_minikube_tunnel();
    let ghost sys = choose|sys: sysinfo::System|
        looked->Ok_0 == tunnel_held(system_processes(sys));
    let entry = minikube_tunnel_option_for(looked);
    assert(entry->Ok_0@ == tunnel_entry(tunnel_held(system_processes(sys))));
    entry
}

/// The entry that sets the address to which the cluster tunnel binds.
pub fn build_set_bind_address_option() -> (entry: Result<MenuEntry, String>)
    ensures
        entry matches Ok(made) && made@ == plain_entry(
            "Set the minikube tunnel bind address"@,
            MenuAction::SetBindAddress,
        ),
{
    entry("Set the minikube tunnel bind address", MenuAction::SetBindAddress)
}

/// The entry that makes a load balancer.
pub fn build_create_load_balancer_option() -> (entry: Result<MenuEntry, String>)
    ensures
        entry matches Ok(made) && made@ == plain_entry(
            "Create load balancer"@,
            MenuAction::CreateLoadBalancer,
        ),
{
    entry("Create load balancer", MenuAction::CreateLoadBalancer)
}

/// The entry that lists the load balancers.
pub fn build_fetch_load_balancers_option() -> (entry: Result<MenuEntry, String>)
    ensures
        entry matches Ok(made) && made@ == plain_entry(
            "List load balancers"@,
            MenuAction::FetchLoadBalancers,
        ),
{
    entry("List load balancers", MenuAction::FetchLoadBalancers)
}

/// The entry that removes one load balancer of the list.
pub fn build_delete_load_balancer_option() -> (entry: Result<MenuEntry, String>)
    ensures
        entry matches Ok(made) && made@ == plain_entry(
            "Delete load balancer"@,
            MenuAction::DeleteLoadBalancer,
        ),
{
    entry("Delete load balancer", MenuAction::DeleteLoadBalancer)
}

/// The entry that removes every load balancer.
pub fn build_delete_all_load_balancers_option() -> (entry: Result<MenuEntry, String>)
    ensures
        entry matches Ok(made) && made@ == plain_entry(
            "Delete all load balancers"@,
            MenuAction::DeleteAllLoadBalancers,
        ),
{
    entry("Delete all load balancers", MenuAction::DeleteAllLoadBalancers)
}

/// The entry that starts a relay.
pub fn build_create_socat_tunnel_option() -> (entry: Result<MenuEntry, String>)
    ensures
        entry matches Ok(made) && made@ == plain_entry(
            "Create socat tunnel"@,
            MenuAction::CreateSocatTunnel,
        ),
{
    entry("Create socat tunnel", MenuAction::CreateSocatTunnel)
}

/// The entry that lists the relays.
pub fn build_fetch_socat_tunnels_option() -> (entry: Result<MenuEntry, String>)
    ensures
        entry matches Ok(made) && made@ == plain_entry(
            "List socat tunnels"@,
            MenuAction::FetchSocatTunnels,
        ),
{
    entry("List socat tunnels", MenuAction::FetchSocatTunnels)
}

/// The entry that ends one relay of the list.
pub fn build_delete_socat_tunnel_option() -> (entry: Result<MenuEntry, String>)
    ensures
        entry matches Ok(made) && made@ == plain_entry(
            "Delete socat tunnel"@,
            MenuAction::DeleteSocatTunnel,
        ),
{
    entry("Delete socat tunnel", MenuAction::DeleteSocatTunnel)
}

/// The entry that ends every relay.
pub fn build_delete_all_socat_tunnels_option() -> (entry: Result<MenuEntry, String>)
    ensures
        entry matches Ok(made) && made@ == plain_entry(
            "Delete all socat tunnels"@,
            MenuAction::DeleteAllSocatTunnels,
        ),
{
    entry("Delete all socat tunnels", MenuAction::DeleteAllSocatTunnels)
}

/// The entry that sets the host to which new relays connect.
pub fn build_set_default_connect_host_option() -> (entry: Result<MenuEntry, String>)
    ensures
        entry matches Ok(made) && made@ == plain_entry(
            "Set socat default connect host"@,
            MenuAction::SetDefaultConnectHost,
        ),
{
    entry("Set socat default connect host", MenuAction::SetDefaultConnectHost)
}

/// The entry that starts a mount.
pub fn build_create_minikube_mount_option() -> (entry: Result<MenuEntry, String>)
    ensures
        entry matches Ok(made) && made@ == plain_entry(
            "Create minikube mount"@,
            MenuAction::CreateMinikubeMount,
        ),
{
    entry("Create minikube mount", MenuAction::CreateMinikubeMount)
}

/// The entry that lists the mounts.
pub fn build_fetch_minikube_mounts_option() -> (entry: Result<MenuEntry, String>)
    ensures
        entry matches Ok(made) && made@ == plain_entry(
            "List minikube mounts"@,
            MenuAction::FetchMinikubeMounts,
        ),
{
    entry("List minikube mounts", MenuAction::FetchMinikubeMounts)
}

/// The entry that ends one mount of the list.
pub fn build_delete_minikube_mount_option() -> (entry: Result<MenuEntry, String>)
    ensures
        entry matches Ok(made) && made@ == plain_entry(
            "Delete minikube mount"@,
            MenuAction::DeleteMinikubeMount,
        ),
{
    entry("Delete minikube mount", MenuAction::DeleteMinikubeMount)
}

/// The entry that ends every mount.
pub fn build_delete_all_minikube_mounts_option() -> (entry: Result<MenuEntry, String>)
    ensures
        entry matches Ok(made) && made@ == plain_entry(
            "Delete all minikube mounts"@,
            MenuAction::DeleteAllMinikubeMounts,
        ),
{
    entry("Delete all minikube mounts", MenuAction::DeleteAllMinikubeMounts)
}

/// The entry that tears everything down and ends the session.
pub fn build_clean_up_and_exit_option() -> (entry: Result<MenuEntry, String>)
    ensures
        entry matches Ok(made) && made@ == (MenuEntryView {
            label: "Clean up and exit"@,
            action: MenuAction::CleanUp,
            is_terminal: true,
        }),
{
    Ok(
        MenuEntry {
            label: String::from_str("Clean up and exit"),
            action: MenuAction::CleanUp,
            is_terminal: true,
        },
    )
}

/// The entry that removes what the initialization file set up and ends the
/// session.
pub fn build_clean_up_init_file_option() -> (entry: Result<MenuEntry, String>)
    ensures
        entry matches Ok(made) && made@ == (MenuEntryView {
            label: "Clean up initialization file configuration and exit"@,
            action: MenuAction::CleanUpInitFile,
            is_terminal: true,
        }),
{
    Ok(
        MenuEntry {
            label: String::from_str("Clean up initialization file configuration and exit"),
            action: MenuAction::CleanUpInitFile,
            is_terminal: true,
        },
    )
}

/// Appends an entry that was made.
fn put(entries: &mut Vec<MenuEntry>, entry: Result<MenuEntry, String>)
    requires
        entry is Ok,
    ensures
        entry_views(final(entries)@) == entry_views(old(entries)@).push(entry->Ok_0@),
{
    match entry {
        Ok(made) => {
            entries.push(made);
            assert(entry_views(entries@) =~= entry_views(old(entries)@).push(made@));
        },
        Err(_) => {},
    }
}

/// Appends the heading of a group.
fn add_heading(entries: &mut Vec<MenuEntry>, title: &str)
    ensures
        entry_views(final(entries)@) == entry_views(old(entries)@).push(heading(title@)),
{
    let made = heading_entry(title);
    entries.push(made);
    assert(entry_views(entries@) =~= entry_views(old(entries)@).push(made@));
}

/// The whole menu for the observed states of the two toggles.
pub fn menu(dashboard_running: bool, tunnel_running: bool) -> (entries: Vec<MenuEntry>)
    ensures
        entry_views(entries@) == menu_entries(dashboard_running, tunnel_running),
{
    let mut entries: Vec<MenuEntry> = Vec::new();
    assert(entry_views(entries@) =~= Seq::<MenuEntryView>::empty());
    add_heading(&mut entries, "Dashboard");
    put(&mut entries, Ok(kubernetes_dashboard_option(dashboard_running)));
    add_heading(&mut entries, "Minikube tunnel");
    put(&mut entries, Ok(minikube_tunnel_option(tunnel_running)));
    add_heading(&mut entries, "Load balancers");
    put(&mut entries, build_create_load_balancer_option());
    put(&mut entries, build_fetch_load_balancers_option());
    put(&mut entries, build_delete_load_balancer_option());
    put(&mut entries, build_delete_all_load_balancers_option());
    add_heading(&mut entries, "Socat tunnels");
    put(&mut entries, build_create_socat_tunnel_option());
    put(&mut entries, build_fetch_socat_tunnels_option());
    put(&mut entries, build_delete_socat_tunnel_option());
    put(&mut entries, build_delete_all_socat_tunnels_option());
    put(&mut entries, build_set_default_connect_host_option());
    add_heading(&mut entries, "Minikube mounts");
    put(&mut entries, build_create_minikube_mount_option());
    put(&mut entries, build_fetch_minikube_mounts_option());
    put(&mut entries, build_delete_minikube_mount_option());
    put(&mut entries, build_delete_all_minikube_mounts_option());
    add_heading(&mut entries, "Clean up and exit");
    put(&mut entries, build_clean_up_and_exit_option());
    put(
        &mut entries,
        Ok(
            MenuEntry {
                label: String::from_str("Exit without cleaning up"),
                action: MenuAction::Nothing,
                is_terminal: true,
            },
        ),
    );
    assert(entry_views(entries@) =~= menu_entries(dashboard_running, tunnel_running));
    entries
}

/// The cluster was asked for the dashboard's load balancer, with the answer
/// `checked`, and the entries are the menu for that answer and for whether
/// the table of the snapshot holds a tunnel process.
pub open spec fn options_built<L: Fn(LaunchRequest) -> LaunchResult>(
    launch: &L,
    checked: OutcomeView,
    sys: sysinfo::System,
    entries: Seq<MenuEntryView>,
) -> bool {
    dashboard_checked(launch, checked) && entries == menu_entries(
        checked is Ok,
        tunnel_held(system_processes(sys)),
    )
}

/// The whole menu for the states that the two toggles are in now: the
/// cluster is asked for the dashboard's load balancer and the process table
/// for the tunnel.
pub fn build_options<L: Fn(LaunchRequest) -> LaunchResult>(launch: &L) -> (entries: Result<
    Vec<MenuEntry>,
    String,
>)
    requires
        can_launch(launch),
    ensures
        entries matches Ok(made) && exists|checked: OutcomeView, sys: sysinfo::System|
            options_built(launch, checked, sys, entry_views(made@)),
{
    let checked = check_kubernetes_dashboard(launch);
    let dashboard_running = checked.is_ok();
    let looked = check_minikube_tunnel();
    let ghost sys = choose|sys: sysinfo::System|
        looked->Ok_0 == tunnel_held(system_processes(sys));
    let tunnel_running = match looked {
        Ok(running) => running,
        Err(_) => false,
    };
    let made = menu(dashboard_running, tunnel_running);
    let entries: Result<Vec<MenuEntry>, String> = Ok(made);
    assert(options_built(launch, outcome_view(checked), sys, entry_views(entries->Ok_0@)));
    entries
}

} // verus!
