use vstd::prelude::*;

use crate::errors::NetworkError;
use crate::ip_pool::{IpPool, Subnet};
use crate::net_utils::{rule_tag, spec_rule_tag, spec_tap_name, tap_name};
use crate::text::bytes_eq;

verus! {

use vstd::string::StringSliceAdditionalSpecFns;

/// What a firewall rule does; together with the interfaces, the subnet and
/// the tag this pins the rule down completely.
#[derive(Clone, Copy, PartialEq, Eq, Structural, Debug)]
pub enum RuleKind {
    /// `FORWARD` accept, from the tap to the outbound interface.
    ForwardOut,
    /// `FORWARD` accept back from the outbound interface, restricted to
    /// established or related connections.
    ForwardReturn,
    /// `POSTROUTING` masquerade for the instance's subnet.
    Masquerade,
}

/// One installed firewall rule, keyed by a per-instance comment tag so that
/// teardown can remove exactly the rules of one instance.
#[derive(Clone, PartialEq, Eq, Debug)]
pub struct FirewallRule {
    pub kind: RuleKind,
    /// The instance's tap device.
    pub tap: Vec<u8>,
    /// The host's default outbound interface.
    pub outbound: Vec<u8>,
    /// Network address of the instance's /30 block.
    pub subnet_net: u32,
    /// The `rik/<instance_id>` comment tag.
    pub tag: Vec<u8>,
}

/// The mathematical shape of a firewall rule.
#[verifier::ext_equal]
pub struct RuleModel {
    pub kind: RuleKind,
    pub tap: Seq<u8>,
    pub outbound: Seq<u8>,
    pub subnet_net: u32,
    pub tag: Seq<u8>,
}

impl View for FirewallRule {
    type V = RuleModel;

    open spec fn view(&self) -> RuleModel {
        RuleModel {
            kind: self.kind,
            tap: self.tap@,
            outbound: self.outbound@,
            subnet_net: self.subnet_net,
            tag: self.tag@,
        }
    }
}

impl DeepView for FirewallRule {
    type V = RuleModel;

    open spec fn deep_view(&self) -> RuleModel {
        self.view()
    }
}

/// One host-side tap interface.
#[derive(Clone, PartialEq, Eq, Debug)]
pub struct TapDevice {
    pub name: Vec<u8>,
    /// The address assigned to the device, once there is one.
    pub addr: Option<u32>,
    /// Whether the link is up.
    pub up: bool,
}

/// The mathematical shape of a tap device.
#[verifier::ext_equal]
pub struct TapModel {
    pub name: Seq<u8>,
    pub addr: Option<u32>,
    pub up: bool,
}

impl View for TapDevice {
    type V = TapModel;

    open spec fn view(&self) -> TapModel {
        TapModel { name: self.name@, addr: self.addr, up: self.up }
    }
}

impl DeepView for TapDevice {
    type V = TapModel;

    open spec fn deep_view(&self) -> TapModel {
        self.view()
    }
}

/// The host's external networking state, as the runtime sees it: the tap
/// devices, the installed firewall rules, and the agent's subnet pool. The
/// unverified shell mirrors every transition of this value onto the real
/// host, so what is proved of it is what holds of the host when the shell
/// performs each action it is handed.
pub struct HostState {
    pub taps: Vec<TapDevice>,
    pub rules: Vec<FirewallRule>,
    pub pool: IpPool,
}

/// `rules` without the rules tagged `tag`, in their original order.
pub open spec fn remove_tagged(rules: Seq<RuleModel>, tag: Seq<u8>) -> Seq<RuleModel> {
    rules.filter(|r: RuleModel| r.tag != tag)
}

/// The index of the first tap named `name`, or -1 when there is none.
pub open spec fn first_tap_index(taps: Seq<TapModel>, name: Seq<u8>) -> int
    decreases taps.len(),
{
    if taps.len() == 0 {
        -1
    } else if taps[0].name == name {
        0
    } else {
        let rest = first_tap_index(taps.drop_first(), name);
        if rest == -1 {
            -1
        } else {
            rest + 1
        }
    }
}

/// `first_tap_index` finds exactly the first match.
pub proof fn lemma_first_tap_index(taps: Seq<TapModel>, name: Seq<u8>)
    ensures
        first_tap_index(taps, name) == -1 ==> forall|j: int|
            0 <= j < taps.len() ==> (#[trigger] taps[j]).name != name,
        first_tap_index(taps, name) != -1 ==> {
            &&& 0 <= first_tap_index(taps, name) < taps.len()
            &&& taps[first_tap_index(taps, name)].name == name
            &&& forall|j: int|
                0 <= j < first_tap_index(taps, name) ==> (#[trigger] taps[j]).name != name
        },
    decreases taps.len(),
{
    if taps.len() > 0 && taps[0].name != name {
        lemma_first_tap_index(taps.drop_first(), name);
        let rest = first_tap_index(taps.drop_first(), name);
        if rest == -1 {
            assert forall|j: int| 0 <= j < taps.len() implies (#[trigger] taps[j]).name
                != name by {
                if j > 0 {
                    assert(taps[j] == taps.drop_first()[j - 1]);
                }
            }
        } else {
            assert(taps[rest + 1] == taps.drop_first()[rest]);
            assert forall|j: int| 0 <= j < rest + 1 implies (#[trigger] taps[j]).name
                != name by {
                if j > 0 {
                    assert(taps[j] == taps.drop_first()[j - 1]);
                }
            }
        }
    }
}

impl HostState {
    /// The pool is well formed.
    pub open spec fn wf(self) -> bool {
        self.pool.wf()
    }

    /// The tap devices, as their models.
    pub open spec fn taps_model(self) -> Seq<TapModel> {
        self.taps.deep_view()
    }

    /// The firewall rules, as their models.
    pub open spec fn rules_model(self) -> Seq<RuleModel> {
        self.rules.deep_view()
    }

    /// Whether a tap named `name` exists.
    pub open spec fn has_tap(self, name: Seq<u8>) -> bool {
        first_tap_index(self.taps_model(), name) != -1
    }

    /// A host with no taps and no rules, whose pool has `subnet_count`
    /// blocks starting at `base`.
    pub fn new(base: u32, subnet_count: usize) -> (r: HostState)
        requires
            base + 4 * subnet_count <= 0x1_0000_0000,
        ensures
            r.wf(),
            r.taps_model() == Seq::<TapModel>::empty(),
            r.rules_model() == Seq::<RuleModel>::empty(),
            r.pool.base == base,
            r.pool.num_subnets() == subnet_count,
            forall|j: int| 0 <= j < subnet_count ==> !r.pool.leased@[j],
    {
        let r = HostState { taps: Vec::new(), rules: Vec::new(), pool: IpPool::new(base, subnet_count) };
        assert(r.taps_model() =~= Seq::<TapModel>::empty());
        assert(r.rules_model() =~= Seq::<RuleModel>::empty());
        r
    }

    /// Create a bare tap device named `name`, with no address, link down.
    pub fn create_tap(&mut self, name: Vec<u8>)
        ensures
            final(self).taps_model() == old(self).taps_model().push(
                TapModel { name: name@, addr: None, up: false },
            ),
            final(self).rules_model() == old(self).rules_model(),
            final(self).pool == old(self).pool,
    {
        let ghost nm = name@;
        self.taps.push(TapDevice { name, addr: None, up: false });
        assert(self.taps_model() =~= old(self).taps_model().push(
            TapModel { name: nm, addr: None, up: false },
        ));
    }

    /// Assign `addr` to the first tap named `name` and bring its link up.
    pub fn set_tap_addr_up(&mut self, name: &Vec<u8>, addr: u32)
        requires
            old(self).has_tap(name@),
        ensures
            final(self).taps_model() == old(self).taps_model().update(
                first_tap_index(old(self).taps_model(), name@),
                TapModel { name: name@, addr: Some(addr), up: true },
            ),
            final(self).rules_model() == old(self).rules_model(),
            final(self).pool == old(self).pool,
    {
        proof {
            lemma_first_tap_index(old(self).taps_model(), name@);
        }
        let ghost target = first_tap_index(old(self).taps_model(), name@);
        let n: usize = self.taps.len();
        let mut i: usize = 0;
        while i < n
            invariant
                *self == *old(self),
                n == self.taps@.len(),
                i <= n,
                0 <= target < n,
                target == first_tap_index(old(self).taps_model(), name@),
                old(self).taps_model()[target].name == name@,
                forall|j: int|
                    0 <= j < target ==> (#[trigger] old(self).taps_model()[j]).name != name@,
                i <= target,
            decreases n - i,
        {
            if bytes_eq(&self.taps[i].name, name) {
                assert(old(self).taps_model()[i as int].name == name@);
                assert(i as int == target);
                let dev = TapDevice { name: crate::text::copy_bytes(name), addr: Some(addr), up: true };
                self.taps.set(i, dev);
                assert(self.taps_model() =~= old(self).taps_model().update(
                    target,
                    TapModel { name: name@, addr: Some(addr), up: true },
                ));
                return;
            }
            i = i + 1;
        }
    }

    /// Delete the first tap named `name`; a missing tap changes nothing.
    pub fn delete_tap(&mut self, name: &Vec<u8>)
        ensures
            final(self).rules_model() == old(self).rules_model(),
            final(self).pool == old(self).pool,
            final(self).taps_model() == if old(self).has_tap(name@) {
                old(self).taps_model().remove(first_tap_index(old(self).taps_model(), name@))
            } else {
                old(self).taps_model()
            },
    {
        proof {
            lemma_first_tap_index(old(self).taps_model(), name@);
        }
        let n: usize = self.taps.len();
        let mut i: usize = 0;
        while i < n
            invariant
                *self == *old(self),
                n == self.taps@.len(),
                i <= n,
                forall|j: int|
                    0 <= j < i ==> (#[trigger] old(self).taps_model()[j]).name != name@,
            decreases n - i,
        {
            if bytes_eq(&self.taps[i].name, name) {
                self.taps.remove(i);
                proof {
                    lemma_first_tap_index(old(self).taps_model(), name@);
                    assert(first_tap_index(old(self).taps_model(), name@) == i) by {
                        lemma_first_index_found(old(self).taps_model(), name@, i as int);
                    }
                    assert(self.taps_model() =~= old(self).taps_model().remove(i as int));
                }
                return;
            }
            i = i + 1;
        }
        proof {
            lemma_first_index_missing(old(self).taps_model(), name@);
            assert(self.taps_model() =~= old(self).taps_model());
        }
    }

    /// Install one firewall rule.
    pub fn add_rule(&mut self, rule: FirewallRule)
        ensures
            final(self).taps_model() == old(self).taps_model(),
            final(self).rules_model() == old(self).rules_model().push(rule@),
            final(self).pool == old(self).pool,
    {
        let ghost r = rule@;
        self.rules.push(rule);
        assert(self.rules_model() =~= old(self).rules_model().push(r));
    }

    /// Remove every rule whose comment tag is `tag`; rules of other
    /// instances are untouched. Idempotent.
    pub fn remove_tagged_rules(&mut self, tag: &Vec<u8>)
        ensures
            final(self).taps_model() == old(self).taps_model(),
            final(self).pool == old(self).pool,
            final(self).rules_model() == remove_tagged(old(self).rules_model(), tag@),
    {
        let mut kept: Vec<FirewallRule> = Vec::new();
        let n: usize = self.rules.len();
        let mut i: usize = 0;
        while i < n
            invariant
                *self == *old(self),
                n == self.rules@.len(),
                i <= n,
                kept.deep_view() == remove_tagged(
                    old(self).rules_model().subrange(0, i as int),
                    tag@,
                ),
            decreases n - i,
        {
            let ghost pre = old(self).rules_model().subrange(0, i as int);
            let keep = !bytes_eq(&self.rules[i].tag, tag);
            if keep {
                let r = copy_rule(&self.rules[i]);
                assert(r@ == old(self).rules_model()[i as int]);
                kept.push(r);
            }
            i = i + 1;
            proof {
                let post = old(self).rules_model().subrange(0, i as int);
                assert(post.drop_last() =~= pre);
                assert(post.last() == old(self).rules_model()[i - 1]);
                reveal(Seq::filter);
                assert(kept.deep_view() =~= remove_tagged(post, tag@));
            }
        }
        self.rules = kept;
        assert(old(self).rules_model().subrange(0, n as int) =~= old(self).rules_model());
        assert(self.rules_model() == remove_tagged(old(self).rules_model(), tag@));
    }
}

/// Lifecycle phase of an instance's network.
#[derive(Clone, Copy, PartialEq, Eq, Structural, Debug)]
pub enum NetPhase {
    Uninitialized,
    Allocated,
    TapUp,
    Wired,
    Destroyed,
}

/// The three firewall rules that wire one instance to the outside world:
/// forward from the tap to the outbound interface, forward back for
/// established or related connections, and masquerade for the subnet.
pub open spec fn spec_instance_rules(
    tap: Seq<u8>,
    outbound: Seq<u8>,
    net: u32,
    tag: Seq<u8>,
) -> Seq<RuleModel> {
    seq![
        RuleModel { kind: RuleKind::ForwardOut, tap, outbound, subnet_net: net, tag },
        RuleModel { kind: RuleKind::ForwardReturn, tap, outbound, subnet_net: net, tag },
        RuleModel { kind: RuleKind::Masquerade, tap, outbound, subnet_net: net, tag },
    ]
}

/// Per-instance network state: a leased /30 block, a tap device, and the
/// firewall rules that wire the guest up, stepping through
/// `Uninitialized -> Allocated -> TapUp -> Wired -> Destroyed`.
pub struct FunctionRuntimeNetwork {
    pub instance_id: Vec<u8>,
    pub phase: NetPhase,
    pub subnet: Option<Subnet>,
}

impl FunctionRuntimeNetwork {
    /// From `Allocated` on, the leased subnet is present and meaningful.
    pub open spec fn wf(self) -> bool {
        match self.phase {
            NetPhase::Uninitialized => self.subnet is None,
            NetPhase::Allocated | NetPhase::TapUp | NetPhase::Wired => match self.subnet {
                Some(s) => s.wf(),
                None => false,
            },
            NetPhase::Destroyed => true,
        }
    }

    /// The leased subnet was carved from `host`'s pool.
    pub open spec fn subnet_in(self, host: HostState) -> bool {
        match self.subnet {
            Some(s) => s.index < host.pool.num_subnets() && s.net == crate::ip_pool::subnet_net(
                host.pool.base,
                s.index as int,
            ),
            None => true,
        }
    }

    /// A network for `instance_id`, nothing allocated yet.
    pub fn new(instance_id: Vec<u8>) -> (r: FunctionRuntimeNetwork)
        ensures
            r.instance_id@ == instance_id@,
            r.phase == NetPhase::Uninitialized,
            r.subnet is None,
            r.wf(),
    {
        FunctionRuntimeNetwork { instance_id, phase: NetPhase::Uninitialized, subnet: None }
    }

    /// The instance's tap device name.
    pub fn tap_name(&self) -> (r: Vec<u8>)
        ensures
            r@ == spec_tap_name(self.instance_id@),
    {
        tap_name(&self.instance_id)
    }

    /// The netmask of the instance's block, in dotted form.
    pub fn mask_long(&self) -> (r: Vec<u8>)
        ensures
            r@ == crate::text::spec_ipv4(crate::ip_pool::SUBNET_MASK),
    {
        crate::text::ipv4_to_bytes(crate::ip_pool::SUBNET_MASK)
    }

    /// Phase 1, `Uninitialized -> TapUp`: lease a subnet and create the tap
    /// as a bare device; no address yet, because the VM driver needs the
    /// device to exist before the socket is set up. Fails exactly when the
    /// pool is exhausted, and then changes nothing.
    pub fn init(&mut self, host: &mut HostState) -> (r: Result<(), NetworkError>)
        requires
            old(self).phase == NetPhase::Uninitialized,
            old(host).wf(),
        ensures
            final(host).wf(),
            final(self).instance_id == old(self).instance_id,
            match r {
                Ok(_) => {
                    &&& final(self).phase == NetPhase::TapUp
                    &&& final(self).wf()
                    &&& final(self).subnet is Some
                    &&& IpPool::alloc_post(
                        old(host).pool,
                        final(host).pool,
                        final(self).subnet.unwrap(),
                    )
                    &&& final(self).subnet_in(*final(host))
                    &&& final(host).taps_model() == old(host).taps_model().push(
                        TapModel {
                            name: spec_tap_name(old(self).instance_id@),
                            addr: None,
                            up: false,
                        },
                    )
                    &&& final(host).rules_model() == old(host).rules_model()
                },
                Err(e) => {
                    &&& e == NetworkError::PoolExhausted
                    &&& *final(host) == *old(host)
                    &&& *final(self) == *old(self)
                    &&& (forall|j: int|
                        0 <= j < old(host).pool.num_subnets() ==> old(host).pool.leased@[j])
                },
            },
    {
        let sub = match host.pool.allocate() {
            Ok(sub) => sub,
            Err(e) => {
                return Err(e);
            },
        };
        self.subnet = Some(sub);
        self.phase = NetPhase::Allocated;
        let tap = tap_name(&self.instance_id);
        host.create_tap(tap);
        self.phase = NetPhase::TapUp;
        Ok(())
    }

    /// Phase 2, `TapUp -> Wired`: put the host address on the tap, bring the
    /// link up, and install the three forwarding rules, tagged for this
    /// instance. `outbound` is the host's default outbound interface, as
    /// discovered by the caller from the route to 0.0.0.0.
    pub fn preboot(&mut self, host: &mut HostState, outbound: &Vec<u8>) -> (r: Result<
        (),
        NetworkError,
    >)
        requires
            old(self).phase == NetPhase::TapUp,
            old(self).wf(),
            old(host).has_tap(spec_tap_name(old(self).instance_id@)),
        ensures
            r == Ok::<(), NetworkError>(()),
            final(self).instance_id == old(self).instance_id,
            final(self).subnet == old(self).subnet,
            final(self).phase == NetPhase::Wired,
            final(self).wf(),
            final(host).wf() == old(host).wf(),
            final(host).pool == old(host).pool,
            final(host).taps_model() == old(host).taps_model().update(
                first_tap_index(old(host).taps_model(), spec_tap_name(old(self).instance_id@)),
                TapModel {
                    name: spec_tap_name(old(self).instance_id@),
                    addr: Some((old(self).subnet.unwrap().net + 1) as u32),
                    up: true,
                },
            ),
            final(host).rules_model() == old(host).rules_model() + spec_instance_rules(
                spec_tap_name(old(self).instance_id@),
                outbound@,
                old(self).subnet.unwrap().net,
                spec_rule_tag(old(self).instance_id@),
            ),
    {
        let sub = match self.subnet {
            Some(s) => s,
            None => {
                return Err(NetworkError::Tap);
            },
        };
        let tap = tap_name(&self.instance_id);
        let host_ip = sub.net + 1;
        host.set_tap_addr_up(&tap, host_ip);
        let tag = rule_tag(&self.instance_id);
        host.add_rule(
            FirewallRule {
                kind: RuleKind::ForwardOut,
                tap: crate::text::copy_bytes(&tap),
                outbound: crate::text::copy_bytes(outbound),
                subnet_net: sub.net,
                tag: crate::text::copy_bytes(&tag),
            },
        );
        host.add_rule(
            FirewallRule {
                kind: RuleKind::ForwardReturn,
                tap: crate::text::copy_bytes(&tap),
                outbound: crate::text::copy_bytes(outbound),
                subnet_net: sub.net,
                tag: crate::text::copy_bytes(&tag),
            },
        );
        host.add_rule(
            FirewallRule {
                kind: RuleKind::Masquerade,
                tap: crate::text::copy_bytes(&tap),
                outbound: crate::text::copy_bytes(outbound),
                subnet_net: sub.net,
                tag: crate::text::copy_bytes(&tag),
            },
        );
        self.phase = NetPhase::Wired;
        assert(host.rules_model() =~= old(host).rules_model() + spec_instance_rules(
            spec_tap_name(old(self).instance_id@),
            outbound@,
            old(self).subnet.unwrap().net,
            spec_rule_tag(old(self).instance_id@),
        ));
        Ok(())
    }

    /// `-> Destroyed`, from any phase: remove this instance's tagged rules,
    /// delete its tap, and return its subnet to the pool. Every step is
    /// keyed to the instance, so the rules and taps of others are untouched;
    /// on a network that never got a resource, nothing changes.
    pub fn destroy(&mut self, host: &mut HostState) -> (r: Result<(), NetworkError>)
        requires
            old(host).wf(),
            old(self).subnet_in(*old(host)),
        ensures
            r == Ok::<(), NetworkError>(()),
            final(self).phase == NetPhase::Destroyed,
            final(self).subnet is None,
            final(self).instance_id == old(self).instance_id,
            final(host).wf(),
            final(host).rules_model() == remove_tagged(
                old(host).rules_model(),
                spec_rule_tag(old(self).instance_id@),
            ),
            final(host).taps_model() == (if old(host).has_tap(
                spec_tap_name(old(self).instance_id@),
            ) {
                old(host).taps_model().remove(
                    first_tap_index(
                        old(host).taps_model(),
                        spec_tap_name(old(self).instance_id@),
                    ),
                )
            } else {
                old(host).taps_model()
            }),
            final(host).pool.base == old(host).pool.base,
            final(host).pool.leased@ == (match old(self).subnet {
                Some(s) => old(host).pool.leased@.update(s.index as int, false),
                None => old(host).pool.leased@,
            }),
    {
        let tag = rule_tag(&self.instance_id);
        host.remove_tagged_rules(&tag);
        let tap = tap_name(&self.instance_id);
        host.delete_tap(&tap);
        match self.subnet {
            Some(s) => {
                host.pool.release(s.index);
            },
            None => {},
        }
        self.subnet = None;
        self.phase = NetPhase::Destroyed;
        Ok(())
    }
}

/// Appending only rules tagged `tag` does not change what survives the
/// removal of `tag`: teardown removes exactly what setup added.
pub proof fn lemma_remove_tagged_append(rules: Seq<RuleModel>, added: Seq<RuleModel>, tag: Seq<u8>)
    requires
        forall|k: int| 0 <= k < added.len() ==> (#[trigger] added[k]).tag == tag,
    ensures
        remove_tagged(rules + added, tag) == remove_tagged(rules, tag),
    decreases added.len(),
{
    if added.len() == 0 {
        assert(rules + added =~= rules);
    } else {
        lemma_remove_tagged_append(rules, added.drop_last(), tag);
        assert((rules + added).drop_last() =~= rules + added.drop_last());
        reveal(Seq::filter);
        assert(remove_tagged(rules + added, tag) =~= remove_tagged(rules, tag));
    }
}

/// A tap pushed onto a row that holds no tap of its name is found first
/// at the end of the row.
pub proof fn lemma_push_first_index(taps: Seq<TapModel>, t: TapModel, name: Seq<u8>)
    requires
        first_tap_index(taps, name) == -1,
        t.name == name,
    ensures
        first_tap_index(taps.push(t), name) == taps.len(),
{
    lemma_first_tap_index(taps, name);
    assert(forall|j: int|
        0 <= j < taps.len() ==> (#[trigger] taps.push(t)[j]).name != name);
    lemma_first_index_found(taps.push(t), name, taps.len() as int);
}

/// Whether `s` begins with `p`.
pub open spec fn spec_has_prefix(s: Seq<u8>, p: Seq<u8>) -> bool {
    s.len() >= p.len() && s.subrange(0, p.len() as int) == p
}

/// Whether `s` begins with `p`.
pub fn has_prefix(s: &Vec<u8>, p: &Vec<u8>) -> (r: bool)
    ensures
        r == spec_has_prefix(s@, p@),
{
    if s.len() < p.len() {
        return false;
    }
    let n: usize = p.len();
    let mut i: usize = 0;
    while i < n
        invariant
            n == p@.len() <= s@.len(),
            i <= n,
            forall|j: int| 0 <= j < i ==> s@[j] == p@[j],
        decreases n - i,
    {
        if s[i] != p[i] {
            assert(s@.subrange(0, n as int)[i as int] != p@[i as int]);
            return false;
        }
        i = i + 1;
    }
    assert(s@.subrange(0, n as int) =~= p@);
    true
}

/// The taps that are not of the runtime's own `tap_` family.
pub open spec fn remove_orphan_taps(taps: Seq<TapModel>) -> Seq<TapModel> {
    taps.filter(|t: TapModel| !spec_has_prefix(t.name, "tap_".spec_bytes()))
}

/// The rules that carry no `rik/` tag.
pub open spec fn remove_orphan_rules(rules: Seq<RuleModel>) -> Seq<RuleModel> {
    rules.filter(|r: RuleModel| !spec_has_prefix(r.tag, "rik/".spec_bytes()))
}

impl HostState {
    /// The best-effort sweep an agent runs at startup, before it accepts
    /// scheduling messages: every `tap_` interface and every `rik/`-tagged
    /// rule left behind by a previous run is removed; devices and rules of
    /// other owners stay. With no instance tracked yet, anything of the
    /// runtime's naming families is an orphan.
    pub fn sweep_orphans(&mut self)
        ensures
            final(self).taps_model() == remove_orphan_taps(old(self).taps_model()),
            final(self).rules_model() == remove_orphan_rules(old(self).rules_model()),
            final(self).pool == old(self).pool,
    {
        let tap_prefix = crate::text::lit("tap_");
        let mut kept_taps: Vec<TapDevice> = Vec::new();
        let nt: usize = self.taps.len();
        let mut i: usize = 0;
        while i < nt
            invariant
                *self == *old(self),
                nt == self.taps@.len(),
                i <= nt,
                tap_prefix@ == "tap_".spec_bytes(),
                kept_taps.deep_view() == remove_orphan_taps(
                    old(self).taps_model().subrange(0, i as int),
                ),
            decreases nt - i,
        {
            let ghost pre = old(self).taps_model().subrange(0, i as int);
            if !has_prefix(&self.taps[i].name, &tap_prefix) {
                kept_taps.push(
                    TapDevice {
                        name: crate::text::copy_bytes(&self.taps[i].name),
                        addr: self.taps[i].addr,
                        up: self.taps[i].up,
                    },
                );
            }
            i = i + 1;
            proof {
                let post = old(self).taps_model().subrange(0, i as int);
                assert(post.drop_last() =~= pre);
                reveal(Seq::filter);
                assert(kept_taps.deep_view() =~= remove_orphan_taps(post));
            }
        }
        let tag_prefix = crate::text::lit("rik/");
        let mut kept_rules: Vec<FirewallRule> = Vec::new();
        let nr: usize = self.rules.len();
        let mut k: usize = 0;
        while k < nr
            invariant
                *self == *old(self),
                nr == self.rules@.len(),
                k <= nr,
                tag_prefix@ == "rik/".spec_bytes(),
                kept_rules.deep_view() == remove_orphan_rules(
                    old(self).rules_model().subrange(0, k as int),
                ),
            decreases nr - k,
        {
            let ghost pre = old(self).rules_model().subrange(0, k as int);
            if !has_prefix(&self.rules[k].tag, &tag_prefix) {
                kept_rules.push(copy_rule(&self.rules[k]));
            }
            k = k + 1;
            proof {
                let post = old(self).rules_model().subrange(0, k as int);
                assert(post.drop_last() =~= pre);
                reveal(Seq::filter);
                assert(kept_rules.deep_view() =~= remove_orphan_rules(post));
            }
        }
        self.taps = kept_taps;
        self.rules = kept_rules;
        assert(old(self).taps_model().subrange(0, nt as int) =~= old(self).taps_model());
        assert(old(self).rules_model().subrange(0, nr as int) =~= old(self).rules_model());
    }
}

/// A fresh copy of a rule, field by field.
fn copy_rule(r: &FirewallRule) -> (c: FirewallRule)
    ensures
        c@ == r@,
{
    FirewallRule {
        kind: r.kind,
        tap: crate::text::copy_bytes(&r.tap),
        outbound: crate::text::copy_bytes(&r.outbound),
        subnet_net: r.subnet_net,
        tag: crate::text::copy_bytes(&r.tag),
    }
}

/// Helper for `first_tap_index`: a match at `i` after no match before `i`
/// is the first match.
pub proof fn lemma_first_index_found(taps: Seq<TapModel>, name: Seq<u8>, i: int)
    requires
        0 <= i < taps.len(),
        taps[i].name == name,
        forall|j: int| 0 <= j < i ==> (#[trigger] taps[j]).name != name,
    ensures
        first_tap_index(taps, name) == i,
    decreases i,
{
    if i > 0 {
        lemma_first_index_found(taps.drop_first(), name, i - 1);
    }
}

/// Helper for `first_tap_index`: no match anywhere means no first match.
pub proof fn lemma_first_index_missing(taps: Seq<TapModel>, name: Seq<u8>)
    requires
        forall|j: int| 0 <= j < taps.len() ==> (#[trigger] taps[j]).name != name,
    ensures
        first_tap_index(taps, name) == -1,
    decreases taps.len(),
{
    if taps.len() > 0 {
        lemma_first_index_missing(taps.drop_first(), name);
    }
}

} // verus!
