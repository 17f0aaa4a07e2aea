//! Network bootstrap orchestration: the action plans that bring up the
//! loopback and primary interfaces, the model of what applying them does to
//! an interface's configuration, and the guarantee that re-running them
//! changes nothing.
//!
//! The driver executes each action best-effort, logging failures and
//! carrying on: a non-critical interface failing to configure must not keep
//! the control plane from coming up.

use vstd::prelude::*;

use crate::init::SystemRuntime;
use crate::ipnet::ip_net_of;
use crate::ipnet::ipv6_net_of;
use crate::ipnet::parse_ip_network;
use crate::ipnet::parse_ipv6_network;
use crate::ipnet::IpNet;
use crate::ipnet::IpNetModel;
use crate::DEFAULT_NET_DEV;
use crate::DEFAULT_NET_DEV_IPV6;
use crate::DEFAULT_NET_DEV_IPV6_SUBNET;
use crate::LOOPBACK_DEV;
use crate::LOOPBACK_IPV4;
use crate::LOOPBACK_IPV4_SUBNET;
use crate::LOOPBACK_IPV6;
use crate::LOOPBACK_IPV6_SUBNET;

verus! {

/// One step of the network bootstrap, by interface name; the driver
/// resolves the name to an index and submits the request.
#[derive(Debug, Clone, PartialEq, Eq)]
pub enum NetAction {
    /// Assign a network to the named interface.
    AddAddress { iface: String, net: IpNet },
    /// Bring the named link up.
    SetLinkUp { iface: String },
    /// Install a route via the named interface with a preferred source.
    AddRoute { iface: String, dest: IpNet, source: IpNet },
}

/// The mathematical value of a [`NetAction`].
pub enum ActionModel {
    AddAddress { iface: Seq<char>, net: IpNetModel },
    SetLinkUp { iface: Seq<char> },
    AddRoute { iface: Seq<char>, dest: IpNetModel, source: IpNetModel },
}

/// The mathematical value of one action.
pub open spec fn action_model(a: NetAction) -> ActionModel {
    match a {
        NetAction::AddAddress { iface, net } => ActionModel::AddAddress {
            iface: iface@,
            net: net.model(),
        },
        NetAction::SetLinkUp { iface } => ActionModel::SetLinkUp { iface: iface@ },
        NetAction::AddRoute { iface, dest, source } => ActionModel::AddRoute {
            iface: iface@,
            dest: dest.model(),
            source: source.model(),
        },
    }
}

/// The mathematical value of an action plan.
pub open spec fn plan_model(acts: Seq<NetAction>) -> Seq<ActionModel> {
    acts.map_values(|a: NetAction| action_model(a))
}

/// The loopback bootstrap: assign the canonical IPv6 loopback network, then
/// the canonical IPv4 loopback network, then bring the link up. An address
/// whose text does not parse is skipped; the link is brought up regardless.
pub open spec fn loopback_plan() -> Seq<ActionModel> {
    (match ip_net_of(LOOPBACK_IPV6@ + LOOPBACK_IPV6_SUBNET@) {
        Some(n) => seq![ActionModel::AddAddress { iface: LOOPBACK_DEV@, net: n }],
        None => Seq::<ActionModel>::empty(),
    }) + (match ip_net_of(LOOPBACK_IPV4@ + LOOPBACK_IPV4_SUBNET@) {
        Some(n) => seq![ActionModel::AddAddress { iface: LOOPBACK_DEV@, net: n }],
        None => Seq::<ActionModel>::empty(),
    }) + seq![ActionModel::SetLinkUp { iface: LOOPBACK_DEV@ }]
}

/// The primary-interface bootstrap: assign the link-local IPv6 network,
/// bring the link up, then install the default IPv6 route via that
/// interface with the assigned address as preferred source. If the address
/// text does not parse nothing is attempted; if the route destination text
/// does not parse the route is skipped.
pub open spec fn nic_plan() -> Seq<ActionModel> {
    match ipv6_net_of(DEFAULT_NET_DEV_IPV6@ + DEFAULT_NET_DEV_IPV6_SUBNET@) {
        None => Seq::<ActionModel>::empty(),
        Some(n) => seq![
            ActionModel::AddAddress { iface: DEFAULT_NET_DEV@, net: n },
            ActionModel::SetLinkUp { iface: DEFAULT_NET_DEV@ },
        ] + (match ipv6_net_of("::/0"@) {
            None => Seq::<ActionModel>::empty(),
            Some(d) => seq![
                ActionModel::AddRoute { iface: DEFAULT_NET_DEV@, dest: d, source: n },
            ],
        }),
    }
}

fn concat_strs(a: &str, b: &str) -> (s: String)
    ensures
        s@ == a@ + b@,
{
    let mut s = String::from_str(a);
    s.append(b);
    s
}

impl SystemRuntime {
    /// Builds the loopback bootstrap actions; see [`loopback_plan`].
    pub fn configure_loopback(&self) -> (acts: Vec<NetAction>)
        ensures
            plan_model(acts@) == loopback_plan(),
    {
        let mut acts: Vec<NetAction> = Vec::new();
        let v6_text = concat_strs(LOOPBACK_IPV6, LOOPBACK_IPV6_SUBNET);
        match parse_ip_network(v6_text.as_str()) {
            Some(net) => {
                acts.push(NetAction::AddAddress { iface: String::from_str(LOOPBACK_DEV), net });
            },
            None => (),
        }
        let v4_text = concat_strs(LOOPBACK_IPV4, LOOPBACK_IPV4_SUBNET);
        match parse_ip_network(v4_text.as_str()) {
            Some(net) => {
                acts.push(NetAction::AddAddress { iface: String::from_str(LOOPBACK_DEV), net });
            },
            None => (),
        }
        acts.push(NetAction::SetLinkUp { iface: String::from_str(LOOPBACK_DEV) });
        proof {
            assert(plan_model(acts@) =~= loopback_plan());
        }
        acts
    }

    /// Builds the primary-interface bootstrap actions; see [`nic_plan`].
    pub fn configure_nic(&self) -> (acts: Vec<NetAction>)
        ensures
            plan_model(acts@) == nic_plan(),
    {
        let mut acts: Vec<NetAction> = Vec::new();
        let v6_text = concat_strs(DEFAULT_NET_DEV_IPV6, DEFAULT_NET_DEV_IPV6_SUBNET);
        match parse_ipv6_network(v6_text.as_str()) {
            Some(net) => {
                acts.push(
                    NetAction::AddAddress { iface: String::from_str(DEFAULT_NET_DEV), net },
                );
                acts.push(NetAction::SetLinkUp { iface: String::from_str(DEFAULT_NET_DEV) });
                // The parse result depends on the text alone, so parsing the
                // same text again yields the assigned address, now as the
                // route's preferred source.
                let source = parse_ipv6_network(v6_text.as_str());
                match (parse_ipv6_network("::/0"), source) {
                    (Some(dest), Some(source)) => {
                        acts.push(
                            NetAction::AddRoute {
                                iface: String::from_str(DEFAULT_NET_DEV),
                                dest,
                                source,
                            },
                        );
                    },
                    _ => (),
                }
            },
            None => (),
        }
        proof {
            assert(plan_model(acts@) =~= nic_plan());
        }
        acts
    }

    /// Builds the whole network bootstrap: the loopback actions, then the
    /// primary-interface actions. The driver runs them in this order,
    /// logging and continuing past failures, and dumps the interface
    /// inventory afterwards.
    pub fn init_pid1_network(&self) -> (acts: Vec<NetAction>)
        ensures
            plan_model(acts@) == loopback_plan() + nic_plan(),
    {
        let mut acts = self.configure_loopback();
        let mut nic = self.configure_nic();
        let ghost before = acts@;
        let ghost nic_snapshot = nic@;
        acts.append(&mut nic);
        proof {
            assert(acts@ == before + nic_snapshot);
            assert(plan_model(acts@) =~= loopback_plan() + nic_plan());
        }
        acts
    }
}

/// The configuration the bootstrap builds up, as the OS network subsystem
/// holds it: which (interface, network) assignments exist, which links are
/// up, and which routes are installed. Assigning an address an interface
/// already has is tolerated and changes nothing.
#[verifier::ext_equal]
pub struct NetConfigModel {
    pub addresses: Set<(Seq<char>, IpNetModel)>,
    pub up: Set<Seq<char>>,
    pub routes: Set<(Seq<char>, IpNetModel, IpNetModel)>,
}

/// What one bootstrap action does to the configuration.
pub open spec fn apply_action(s: NetConfigModel, a: ActionModel) -> NetConfigModel {
    match a {
        ActionModel::AddAddress { iface, net } => NetConfigModel {
            addresses: s.addresses.insert((iface, net)),
            ..s
        },
        ActionModel::SetLinkUp { iface } => NetConfigModel { up: s.up.insert(iface), ..s },
        ActionModel::AddRoute { iface, dest, source } => NetConfigModel {
            routes: s.routes.insert((iface, dest, source)),
            ..s
        },
    }
}

/// What a whole plan does to the configuration, action by action.
pub open spec fn apply_plan(s: NetConfigModel, acts: Seq<ActionModel>) -> NetConfigModel
    decreases acts.len(),
{
    if acts.len() == 0 {
        s
    } else {
        apply_plan(apply_action(s, acts[0]), acts.drop_first())
    }
}

/// The address assignments a plan makes.
pub open spec fn plan_addresses(acts: Seq<ActionModel>) -> Set<(Seq<char>, IpNetModel)>
    decreases acts.len(),
{
    if acts.len() == 0 {
        Set::<(Seq<char>, IpNetModel)>::empty()
    } else {
        (match acts[0] {
            ActionModel::AddAddress { iface, net } => plan_addresses(acts.drop_first()).insert(
                (iface, net),
            ),
            _ => plan_addresses(acts.drop_first()),
        })
    }
}

/// The links a plan brings up.
pub open spec fn plan_ups(acts: Seq<ActionModel>) -> Set<Seq<char>>
    decreases acts.len(),
{
    if acts.len() == 0 {
        Set::<Seq<char>>::empty()
    } else {
        (match acts[0] {
            ActionModel::SetLinkUp { iface } => plan_ups(acts.drop_first()).insert(iface),
            _ => plan_ups(acts.drop_first()),
        })
    }
}

/// The routes a plan installs.
pub open spec fn plan_routes(acts: Seq<ActionModel>) -> Set<(Seq<char>, IpNetModel, IpNetModel)>
    decreases acts.len(),
{
    if acts.len() == 0 {
        Set::<(Seq<char>, IpNetModel, IpNetModel)>::empty()
    } else {
        (match acts[0] {
            ActionModel::AddRoute { iface, dest, source } => plan_routes(
                acts.drop_first(),
            ).insert((iface, dest, source)),
            _ => plan_routes(acts.drop_first()),
        })
    }
}

/// Applying a plan adds exactly the plan's assignments, link states and
/// routes to the configuration.
pub proof fn lemma_apply_plan_effect(s: NetConfigModel, acts: Seq<ActionModel>)
    ensures
        apply_plan(s, acts).addresses == s.addresses + plan_addresses(acts),
        apply_plan(s, acts).up == s.up + plan_ups(acts),
        apply_plan(s, acts).routes == s.routes + plan_routes(acts),
    decreases acts.len(),
{
    if acts.len() == 0 {
        assert(s.addresses + plan_addresses(acts) =~= s.addresses);
        assert(s.up + plan_ups(acts) =~= s.up);
        assert(s.routes + plan_routes(acts) =~= s.routes);
    } else {
        let s1 = apply_action(s, acts[0]);
        lemma_apply_plan_effect(s1, acts.drop_first());
        assert(apply_plan(s, acts).addresses =~= s.addresses + plan_addresses(acts));
        assert(apply_plan(s, acts).up =~= s.up + plan_ups(acts));
        assert(apply_plan(s, acts).routes =~= s.routes + plan_routes(acts));
    }
}

/// Re-running a bootstrap plan against a configuration it has already been
/// applied to leaves the configuration as it is: in particular, the final
/// address set of an interface already configured with the same address is
/// unchanged — duplicate assignment is tolerated, not doubled.
pub proof fn lemma_bootstrap_idempotent(s: NetConfigModel, acts: Seq<ActionModel>)
    ensures
        apply_plan(apply_plan(s, acts), acts) == apply_plan(s, acts),
{
    let once = apply_plan(s, acts);
    lemma_apply_plan_effect(s, acts);
    lemma_apply_plan_effect(once, acts);
    assert(once.addresses + plan_addresses(acts) =~= once.addresses);
    assert(once.up + plan_ups(acts) =~= once.up);
    assert(once.routes + plan_routes(acts) =~= once.routes);
    assert(apply_plan(once, acts) =~= once);
}


/// The set of (interface, network) assignments a sequence of pairs holds.
pub open spec fn addr_set(v: Seq<(String, IpNet)>) -> Set<(Seq<char>, IpNetModel)> {
    Set::new(
        |m: (Seq<char>, IpNetModel)|
            exists|i: int|
                0 <= i < v.len() && ((#[trigger] v[i]).0@, v[i].1.model()) == m,
    )
}

/// The set of interface names a sequence holds.
pub open spec fn name_set(v: Seq<String>) -> Set<Seq<char>> {
    Set::new(|m: Seq<char>| exists|i: int| 0 <= i < v.len() && (#[trigger] v[i])@ == m)
}

/// The set of routes a sequence of triples holds.
pub open spec fn route_set(v: Seq<(String, IpNet, IpNet)>) -> Set<
    (Seq<char>, IpNetModel, IpNetModel),
> {
    Set::new(
        |m: (Seq<char>, IpNetModel, IpNetModel)|
            exists|i: int|
                0 <= i < v.len() && ((#[trigger] v[i]).0@, v[i].1.model(), v[i].2.model()) == m,
    )
}

proof fn lemma_addr_set_push(v: Seq<(String, IpNet)>, x: (String, IpNet))
    ensures
        addr_set(v.push(x)) == addr_set(v).insert((x.0@, x.1.model())),
{
    let w = v.push(x);
    assert forall|m: (Seq<char>, IpNetModel)|
        addr_set(w).contains(m) implies addr_set(v).insert((x.0@, x.1.model())).contains(m) by {
        let i = choose|i: int| 0 <= i < w.len() && ((#[trigger] w[i]).0@, w[i].1.model()) == m;
        if i < v.len() {
            assert((v[i].0@, v[i].1.model()) == m);
        }
    }
    assert forall|m: (Seq<char>, IpNetModel)|
        addr_set(v).insert((x.0@, x.1.model())).contains(m) implies addr_set(w).contains(m) by {
        if m == (x.0@, x.1.model()) {
            assert(((w[v.len() as int]).0@, w[v.len() as int].1.model()) == m);
        } else {
            let i = choose|i: int| 0 <= i < v.len() && ((#[trigger] v[i]).0@, v[i].1.model()) == m;
            assert(((w[i]).0@, w[i].1.model()) == m);
        }
    }
    assert(addr_set(w) =~= addr_set(v).insert((x.0@, x.1.model())));
}

proof fn lemma_name_set_push(v: Seq<String>, x: String)
    ensures
        name_set(v.push(x)) == name_set(v).insert(x@),
{
    let w = v.push(x);
    assert forall|m: Seq<char>| name_set(w).contains(m) implies name_set(v).insert(
        x@,
    ).contains(m) by {
        let i = choose|i: int| 0 <= i < w.len() && (#[trigger] w[i])@ == m;
        if i < v.len() {
            assert((v[i])@ == m);
        }
    }
    assert forall|m: Seq<char>| name_set(v).insert(x@).contains(m) implies name_set(w).contains(
        m,
    ) by {
        if m == x@ {
            assert((w[v.len() as int])@ == m);
        } else {
            let i = choose|i: int| 0 <= i < v.len() && (#[trigger] v[i])@ == m;
            assert((w[i])@ == m);
        }
    }
    assert(name_set(w) =~= name_set(v).insert(x@));
}

proof fn lemma_route_set_push(v: Seq<(String, IpNet, IpNet)>, x: (String, IpNet, IpNet))
    ensures
        route_set(v.push(x)) == route_set(v).insert((x.0@, x.1.model(), x.2.model())),
{
    let w = v.push(x);
    let xm = (x.0@, x.1.model(), x.2.model());
    assert forall|m: (Seq<char>, IpNetModel, IpNetModel)|
        route_set(w).contains(m) implies route_set(v).insert(xm).contains(m) by {
        let i = choose|i: int|
            0 <= i < w.len() && ((#[trigger] w[i]).0@, w[i].1.model(), w[i].2.model()) == m;
        if i < v.len() {
            assert((v[i].0@, v[i].1.model(), v[i].2.model()) == m);
        }
    }
    assert forall|m: (Seq<char>, IpNetModel, IpNetModel)|
        route_set(v).insert(xm).contains(m) implies route_set(w).contains(m) by {
        if m == xm {
            assert(((w[v.len() as int]).0@, w[v.len() as int].1.model(), w[v.len() as int].2.model())
                == m);
        } else {
            let i = choose|i: int|
                0 <= i < v.len() && ((#[trigger] v[i]).0@, v[i].1.model(), v[i].2.model()) == m;
            assert(((w[i]).0@, w[i].1.model(), w[i].2.model()) == m);
        }
    }
    assert(route_set(w) =~= route_set(v).insert(xm));
}

/// The bootstrap's view of the OS network configuration, held as plain
/// values; membership is by value, so repeating an assignment changes
/// nothing.
#[derive(Debug, Clone, PartialEq, Eq)]
pub struct NetConfig {
    pub addresses: Vec<(String, IpNet)>,
    pub up: Vec<String>,
    pub routes: Vec<(String, IpNet, IpNet)>,
}

impl NetConfig {
    /// The whole configuration as sets.
    pub open spec fn model(self) -> NetConfigModel {
        NetConfigModel {
            addresses: addr_set(self.addresses@),
            up: name_set(self.up@),
            routes: route_set(self.routes@),
        }
    }

    /// An empty configuration.
    pub fn new() -> (s: Self)
        ensures
            s.model().addresses == Set::<(Seq<char>, IpNetModel)>::empty(),
            s.model().up == Set::<Seq<char>>::empty(),
            s.model().routes == Set::<(Seq<char>, IpNetModel, IpNetModel)>::empty(),
    {
        let s = NetConfig { addresses: Vec::new(), up: Vec::new(), routes: Vec::new() };
        proof {
            assert(s.model().addresses =~= Set::<(Seq<char>, IpNetModel)>::empty());
            assert(s.model().up =~= Set::<Seq<char>>::empty());
            assert(s.model().routes =~= Set::<(Seq<char>, IpNetModel, IpNetModel)>::empty());
        }
        s
    }
}

fn bytes_equal(a: &Vec<u8>, b: &Vec<u8>) -> (r: bool)
    ensures
        r == (a@ == b@),
{
    if a.len() != b.len() {
        proof {
            assert(a@ != b@);
        }
        return false;
    }
    let mut i: usize = 0;
    while i < a.len()
        invariant
            0 <= i <= a@.len(),
            a@.len() == b@.len(),
            forall|j: int| 0 <= j < i ==> a@[j] == b@[j],
        decreases a@.len() - i,
    {
        if a[i] != b[i] {
            return false;
        }
        i = i + 1;
    }
    proof {
        assert(a@ =~= b@);
    }
    true
}

fn clone_ip_net(net: &IpNet) -> (r: IpNet)
    ensures
        r.model() == net.model(),
{
    let mut addr: Vec<u8> = Vec::new();
    let mut i: usize = 0;
    while i < net.addr.len()
        invariant
            0 <= i <= net.addr@.len(),
            addr@ == net.addr@.subrange(0, i as int),
        decreases net.addr@.len() - i,
    {
        addr.push(net.addr[i]);
        proof {
            assert(addr@ =~= net.addr@.subrange(0, i + 1));
        }
        i = i + 1;
    }
    proof {
        assert(addr@ =~= net.addr@);
    }
    let r = IpNet { addr, prefix: net.prefix };
    proof {
        assert(r.model() =~= net.model());
    }
    r
}

fn nets_equal(a: &IpNet, b: &IpNet) -> (r: bool)
    ensures
        r == (a.model() == b.model()),
{
    let same = bytes_equal(&a.addr, &b.addr) && a.prefix == b.prefix;
    proof {
        if same {
            assert(a.model() =~= b.model());
        }
    }
    same
}

fn config_holds_address(config: &NetConfig, iface: &String, net: &IpNet) -> (r: bool)
    ensures
        r == config.model().addresses.contains((iface@, net.model())),
{
    let mut i: usize = 0;
    while i < config.addresses.len()
        invariant
            0 <= i <= config.addresses@.len(),
            forall|j: int|
                0 <= j < i ==> ((#[trigger] config.addresses@[j]).0@,
                config.addresses@[j].1.model()) != (iface@, net.model()),
        decreases config.addresses@.len() - i,
    {
        if config.addresses[i].0 == *iface && nets_equal(&config.addresses[i].1, net) {
            proof {
                assert(((config.addresses@[i as int]).0@, config.addresses@[i as int].1.model())
                    == (iface@, net.model()));
            }
            return true;
        }
        i = i + 1;
    }
    proof {
        if config.model().addresses.contains((iface@, net.model())) {
            let j = choose|j: int|
                0 <= j < config.addresses@.len() && ((#[trigger] config.addresses@[j]).0@,
                config.addresses@[j].1.model()) == (iface@, net.model());
            assert(false);
        }
    }
    false
}

fn config_holds_up(config: &NetConfig, iface: &String) -> (r: bool)
    ensures
        r == config.model().up.contains(iface@),
{
    let mut i: usize = 0;
    while i < config.up.len()
        invariant
            0 <= i <= config.up@.len(),
            forall|j: int| 0 <= j < i ==> (#[trigger] config.up@[j])@ != iface@,
        decreases config.up@.len() - i,
    {
        if config.up[i] == *iface {
            proof {
                assert((config.up@[i as int])@ == iface@);
            }
            return true;
        }
        i = i + 1;
    }
    proof {
        if config.model().up.contains(iface@) {
            let j = choose|j: int|
                0 <= j < config.up@.len() && (#[trigger] config.up@[j])@ == iface@;
            assert(false);
        }
    }
    false
}

fn config_holds_route(config: &NetConfig, iface: &String, dest: &IpNet, source: &IpNet) -> (r:
    bool)
    ensures
        r == config.model().routes.contains((iface@, dest.model(), source.model())),
{
    let mut i: usize = 0;
    while i < config.routes.len()
        invariant
            0 <= i <= config.routes@.len(),
            forall|j: int|
                0 <= j < i ==> ((#[trigger] config.routes@[j]).0@, config.routes@[j].1.model(),
                config.routes@[j].2.model()) != (iface@, dest.model(), source.model()),
        decreases config.routes@.len() - i,
    {
        if config.routes[i].0 == *iface && nets_equal(&config.routes[i].1, dest) && nets_equal(
            &config.routes[i].2,
            source,
        ) {
            proof {
                assert(((config.routes@[i as int]).0@, config.routes@[i as int].1.model(),
                config.routes@[i as int].2.model()) == (iface@, dest.model(), source.model()));
            }
            return true;
        }
        i = i + 1;
    }
    proof {
        if config.model().routes.contains((iface@, dest.model(), source.model())) {
            let j = choose|j: int|
                0 <= j < config.routes@.len() && ((#[trigger] config.routes@[j]).0@,
                config.routes@[j].1.model(), config.routes@[j].2.model()) == (
                iface@,
                dest.model(),
                source.model(),
                );
            assert(false);
        }
    }
    false
}

/// Applies one bootstrap action to the configuration: an assignment, link
/// state or route the configuration already holds is left exactly as it is.
pub fn apply_net_action(config: &mut NetConfig, action: &NetAction)
    ensures
        final(config).model() == apply_action(old(config).model(), action_model(*action)),
{
    match action {
        NetAction::AddAddress { iface, net } => {
            if !config_holds_address(config, iface, net) {
                let ghost pre = config.addresses@;
                config.addresses.push((iface.clone(), clone_ip_net(net)));
                proof {
                    let x = config.addresses@[pre.len() as int];
                    lemma_addr_set_push(pre, x);
                    assert(x.0@ == iface@);
                    assert(x.1.model() =~= net.model());
                }
            } else {
                proof {
                    assert(old(config).model().addresses.insert((iface@, net.model()))
                        =~= old(config).model().addresses);
                }
            }
            proof {
                assert(config.model() =~= apply_action(
                    old(config).model(),
                    action_model(*action),
                ));
            }
        },
        NetAction::SetLinkUp { iface } => {
            if !config_holds_up(config, iface) {
                let ghost pre = config.up@;
                config.up.push(iface.clone());
                proof {
                    let x = config.up@[pre.len() as int];
                    lemma_name_set_push(pre, x);
                    assert(x@ == iface@);
                }
            } else {
                proof {
                    assert(old(config).model().up.insert(iface@) =~= old(config).model().up);
                }
            }
            proof {
                assert(config.model() =~= apply_action(
                    old(config).model(),
                    action_model(*action),
                ));
            }
        },
        NetAction::AddRoute { iface, dest, source } => {
            if !config_holds_route(config, iface, dest, source) {
                let ghost pre = config.routes@;
                config.routes.push((iface.clone(), clone_ip_net(dest), clone_ip_net(source)));
                proof {
                    let x = config.routes@[pre.len() as int];
                    lemma_route_set_push(pre, x);
                    assert(x.0@ == iface@);
                    assert(x.1.model() =~= dest.model());
                    assert(x.2.model() =~= source.model());
                }
            } else {
                proof {
                    assert(old(config).model().routes.insert(
                        (iface@, dest.model(), source.model()),
                    ) =~= old(config).model().routes);
                }
            }
            proof {
                assert(config.model() =~= apply_action(
                    old(config).model(),
                    action_model(*action),
                ));
            }
        },
    }
}

proof fn lemma_apply_plan_snoc(s: NetConfigModel, acts: Seq<ActionModel>, a: ActionModel)
    ensures
        apply_plan(s, acts.push(a)) == apply_action(apply_plan(s, acts), a),
    decreases acts.len(),
{
    if acts.len() == 0 {
        assert(acts.push(a).drop_first() =~= acts);
        assert(acts.push(a)[0] == a);
        assert(apply_plan(apply_action(s, a), acts) == apply_action(s, a));
        assert(apply_plan(s, acts.push(a)) == apply_action(apply_plan(s, acts), a));
    } else {
        lemma_apply_plan_snoc(apply_action(s, acts[0]), acts.drop_first(), a);
        assert(acts.push(a).drop_first() =~= acts.drop_first().push(a));
        assert(apply_plan(s, acts.push(a)) == apply_action(apply_plan(s, acts), a));
    }
}

/// Applies a whole plan to the configuration, in order.
pub fn apply_net_plan(config: &mut NetConfig, acts: &Vec<NetAction>)
    ensures
        final(config).model() == apply_plan(old(config).model(), plan_model(acts@)),
{
    let mut i: usize = 0;
    proof {
        assert(plan_model(acts@.subrange(0, 0)) =~= Seq::<ActionModel>::empty());
    }
    while i < acts.len()
        invariant
            0 <= i <= acts@.len(),
            config.model() == apply_plan(
                old(config).model(),
                plan_model(acts@.subrange(0, i as int)),
            ),
        decreases acts@.len() - i,
    {
        proof {
            lemma_apply_plan_snoc(
                old(config).model(),
                plan_model(acts@.subrange(0, i as int)),
                action_model(acts@[i as int]),
            );
            assert(plan_model(acts@.subrange(0, i + 1)) =~= plan_model(
                acts@.subrange(0, i as int),
            ).push(action_model(acts@[i as int])));
        }
        apply_net_action(config, &acts[i]);
        i = i + 1;
    }
    proof {
        assert(acts@.subrange(0, acts@.len() as int) =~= acts@);
    }
}

} // verus!
