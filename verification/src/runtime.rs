use vstd::prelude::*;

use crate::errors::{NetworkError, RuntimeError};
use crate::ip_pool::IpPool;
use crate::net_utils::{mac_from_entropy, mac_to_text, spec_hex_pairs, spec_rule_tag, spec_tap_name};
use crate::network::{
    first_tap_index, lemma_push_first_index, lemma_remove_tagged_append, remove_tagged,
    spec_instance_rules, FunctionRuntimeNetwork, HostState, NetPhase, TapModel,
};
use crate::text::{copy_bytes, lit, push_bytes, push_ipv4, spec_ipv4};

verus! {

use vstd::string::StringSliceAdditionalSpecFns;

/// The static prefix of the guest kernel command line: serial console,
/// panic-on-fail, minimal device probing.
pub const BOOT_ARGS_STATIC: &'static str =
    "console=ttyS0 reboot=k nomodules random.trust_cpu=on panic=1 pci=off tsc=reliable i8042.nokbd i8042.noaux quiet loglevel=0";

/// The chroot that the VM supervisor runs in.
pub const FIRECRACKER_WORKSPACE: &'static str = "/srv/firecracker";

/// Agent-level configuration for the function runtime: where the VM
/// binary and the guest kernel live.
#[derive(Clone, PartialEq, Eq, Debug)]
pub struct FnConfiguration {
    pub firecracker_location: Vec<u8>,
    pub kernel_location: Vec<u8>,
}

impl FnConfiguration {
    /// Both paths are present.
    pub open spec fn wf(self) -> bool {
        self.firecracker_location@.len() > 0 && self.kernel_location@.len() > 0
    }
}

/// The full kernel command line: the static prefix and an `ip=` clause so
/// the guest configures `eth0` statically, without DHCP.
pub open spec fn spec_boot_args(guest: u32, gw: u32) -> Seq<u8> {
    BOOT_ARGS_STATIC.spec_bytes() + " ip=".spec_bytes() + spec_ipv4(guest) + "::".spec_bytes()
        + spec_ipv4(gw) + ":".spec_bytes() + spec_ipv4(crate::ip_pool::SUBNET_MASK)
        + "::eth0:off".spec_bytes()
}

/// Build the kernel command line for a guest at `guest` whose gateway is
/// `gw`.
pub fn boot_args(guest: u32, gw: u32) -> (r: Vec<u8>)
    ensures
        r@ == spec_boot_args(guest, gw),
{
    let mut out = lit(BOOT_ARGS_STATIC);
    let ip_clause = lit(" ip=");
    push_bytes(&mut out, ip_clause.as_slice());
    push_ipv4(&mut out, guest);
    let sep = lit("::");
    push_bytes(&mut out, sep.as_slice());
    push_ipv4(&mut out, gw);
    let colon = lit(":");
    push_bytes(&mut out, colon.as_slice());
    push_ipv4(&mut out, crate::ip_pool::SUBNET_MASK);
    let tail = lit("::eth0:off");
    push_bytes(&mut out, tail.as_slice());
    assert(out@ =~= spec_boot_args(guest, gw));
    out
}

/// An assembled microVM configuration: kernel, root drive, one network
/// interface, and the supervisor to run it all under. Immutable once
/// built; the unverified shell translates it one-for-one for the VM
/// driver.
#[derive(Clone, PartialEq, Eq, Debug)]
pub struct MicroVmConfig {
    pub vm_id: Vec<u8>,
    pub kernel_image_path: Vec<u8>,
    pub boot_args: Vec<u8>,
    pub drive_id: Vec<u8>,
    pub drive_path_on_host: Vec<u8>,
    pub drive_is_root: bool,
    pub iface_id: Vec<u8>,
    pub guest_mac: Vec<u8>,
    pub host_dev_name: Vec<u8>,
    pub chroot: Vec<u8>,
    pub exec_binary: Vec<u8>,
}

/// The six entropy bytes shaped into a locally-administered MAC address.
pub open spec fn spec_mac_bytes(e: Seq<u8>) -> Seq<u8> {
    seq![(e[0] & 0xfc) | 0x02, e[1], e[2], e[3], e[4], e[5]]
}

/// What a well-built configuration holds, given the instance, its network
/// addresses and the agent's paths.
pub open spec fn spec_config_ok(
    c: MicroVmConfig,
    id: Seq<u8>,
    config: FnConfiguration,
    file_path: Seq<u8>,
    net: u32,
    entropy: Seq<u8>,
) -> bool {
    &&& c.vm_id@ == id
    &&& c.kernel_image_path@ == config.kernel_location@
    &&& c.boot_args@ == spec_boot_args((net + 2) as u32, (net + 1) as u32)
    &&& c.drive_id@ == "rootfs".spec_bytes()
    &&& c.drive_path_on_host@ == file_path
    &&& c.drive_is_root
    &&& c.iface_id@ == "eth0".spec_bytes()
    &&& c.guest_mac@ == spec_hex_pairs(spec_mac_bytes(entropy))
    &&& c.host_dev_name@ == spec_tap_name(id)
    &&& c.chroot@ == FIRECRACKER_WORKSPACE.spec_bytes()
    &&& c.exec_binary@ == config.firecracker_location@
}

/// How far the driver has taken a machine.
#[derive(Clone, Copy, PartialEq, Eq, Structural, Debug)]
pub enum MachineState {
    New,
    Created,
    Running,
    Stopped,
}

/// A handle on a live microVM process.
#[derive(Clone, Copy, PartialEq, Eq, Structural, Debug)]
pub struct Machine {
    pub state: MachineState,
}

/// One live workload instance: the cached rootfs it boots from, its
/// network, and the machine handle once the guest runs. The handle is
/// `Some` exactly when the last successful transition was `start`.
pub struct FunctionRuntime {
    pub id: Vec<u8>,
    pub function_config: FnConfiguration,
    /// Path of the rootfs in the image cache; borrowed from the cache,
    /// never deleted on shutdown.
    pub file_path: Vec<u8>,
    pub network: FunctionRuntimeNetwork,
    pub machine: Option<Machine>,
}

impl HostState {
    /// No trace of `instance_id` on this host: no tap of its name, no rule
    /// with its tag. What `up` creates for a fresh instance, teardown
    /// removes without touching anything else.
    pub open spec fn fresh_for(self, instance_id: Seq<u8>) -> bool {
        &&& !self.has_tap(spec_tap_name(instance_id))
        &&& remove_tagged(self.rules_model(), spec_rule_tag(instance_id)) == self.rules_model()
    }
}

impl FunctionRuntime {
    /// The network belongs to this instance, and a present machine handle
    /// means a running guest behind a fully wired network.
    pub open spec fn wf(self) -> bool {
        &&& self.network.instance_id@ == self.id@
        &&& self.network.wf()
        &&& match self.machine {
            Some(m) => m.state == MachineState::Running && self.network.phase == NetPhase::Wired,
            None => true,
        }
    }

    /// The instance is running exactly when it holds a machine handle.
    pub open spec fn running(self) -> bool {
        self.machine is Some
    }

    /// Assemble the microVM configuration from the current network state:
    /// kernel with the static boot arguments and the guest's `ip=` clause,
    /// the cached rootfs as the root drive, one interface on the tap, and
    /// the supervisor in its chroot. Fails with `FirepilotConfiguration`
    /// exactly when a configured path is missing; needs the network
    /// initialized so the addresses and the tap name exist.
    pub fn generate_microvm_config(&self, entropy: &[u8; 6]) -> (r: Result<
        MicroVmConfig,
        RuntimeError,
    >)
        requires
            self.network.phase == NetPhase::TapUp || self.network.phase == NetPhase::Wired,
            self.network.wf(),
            self.network.instance_id@ == self.id@,
        ensures
            match r {
                Ok(c) => self.function_config.wf() && spec_config_ok(
                    c,
                    self.id@,
                    self.function_config,
                    self.file_path@,
                    self.network.subnet.unwrap().net,
                    entropy@,
                ),
                Err(e) => e == RuntimeError::FirepilotConfiguration
                    && !self.function_config.wf(),
            },
    {
        if self.function_config.kernel_location.len() == 0
            || self.function_config.firecracker_location.len() == 0 {
            return Err(RuntimeError::FirepilotConfiguration);
        }
        let sub = match self.network.subnet {
            Some(s) => s,
            None => {
                return Err(RuntimeError::FirepilotConfiguration);
            },
        };
        let mac = mac_from_entropy(entropy);
        assert(mac@ =~= spec_mac_bytes(entropy@));
        Ok(
            MicroVmConfig {
                vm_id: copy_bytes(&self.id),
                kernel_image_path: copy_bytes(&self.function_config.kernel_location),
                boot_args: boot_args(sub.net + 2, sub.net + 1),
                drive_id: lit("rootfs"),
                drive_path_on_host: copy_bytes(&self.file_path),
                drive_is_root: true,
                iface_id: lit("eth0"),
                guest_mac: mac_to_text(&mac),
                host_dev_name: crate::net_utils::tap_name(&self.id),
                chroot: lit(FIRECRACKER_WORKSPACE),
                exec_binary: copy_bytes(&self.function_config.firecracker_location),
            },
        )
    }

    /// Boot the instance, in strict order: lease a subnet and create the
    /// tap, assemble the configuration, create the machine, wire the
    /// network, start the guest. `create_ok` and `start_ok` are what the
    /// VM driver reported for its two calls. On any failure the completed
    /// steps are undone in reverse before the error is returned: a failed
    /// `up` leaves the host exactly as it found it.
    pub fn up(
        &mut self,
        host: &mut HostState,
        outbound: &Vec<u8>,
        entropy: &[u8; 6],
        create_ok: bool,
        start_ok: bool,
    ) -> (r: Result<MicroVmConfig, RuntimeError>)
        requires
            old(self).wf(),
            old(self).machine is None,
            old(self).network.phase == NetPhase::Uninitialized,
            old(self).function_config.wf(),
            old(host).wf(),
            old(host).fresh_for(old(self).id@),
        ensures
            final(self).id == old(self).id,
            final(self).file_path == old(self).file_path,
            final(self).function_config == old(self).function_config,
            final(self).wf(),
            final(host).wf(),
            r is Ok <==> (create_ok && start_ok && exists|j: int|
                0 <= j < old(host).pool.num_subnets() && !(#[trigger] old(
                    host,
                ).pool.leased@[j])),
            match r {
                Ok(c) => {
                    &&& final(self).machine matches Some(m) && m.state == MachineState::Running
                    &&& final(self).network.phase == NetPhase::Wired
                    &&& final(self).network.subnet is Some
                    &&& spec_config_ok(
                        c,
                        old(self).id@,
                        old(self).function_config,
                        old(self).file_path@,
                        final(self).network.subnet.unwrap().net,
                        entropy@,
                    )
                    &&& IpPool::alloc_post(
                        old(host).pool,
                        final(host).pool,
                        final(self).network.subnet.unwrap(),
                    )
                    &&& final(self).network.subnet_in(*final(host))
                    &&& final(host).taps_model() == old(host).taps_model().push(
                        TapModel {
                            name: spec_tap_name(old(self).id@),
                            addr: Some((final(self).network.subnet.unwrap().net + 1) as u32),
                            up: true,
                        },
                    )
                    &&& final(host).rules_model() == old(host).rules_model()
                        + spec_instance_rules(
                        spec_tap_name(old(self).id@),
                        outbound@,
                        final(self).network.subnet.unwrap().net,
                        spec_rule_tag(old(self).id@),
                    )
                },
                Err(e) => {
                    &&& final(self).machine is None
                    &&& final(host).taps_model() == old(host).taps_model()
                    &&& final(host).rules_model() == old(host).rules_model()
                    &&& final(host).pool.base == old(host).pool.base
                    &&& final(host).pool.leased@ == old(host).pool.leased@
                    &&& (e == RuntimeError::Network(NetworkError::PoolExhausted) || e
                        == RuntimeError::FirecrackerApi)
                    &&& (e == RuntimeError::Network(NetworkError::PoolExhausted) <==> (forall|
                        j: int,
                    |
                        0 <= j < old(host).pool.num_subnets() ==> #[trigger] old(
                            host,
                        ).pool.leased@[j]))
                },
            },
    {
        let ghost h0 = *old(host);
        let ghost tap_bare = TapModel {
            name: spec_tap_name(old(self).id@),
            addr: None,
            up: false,
        };
        match self.network.init(host) {
            Ok(_) => {},
            Err(e) => {
                return Err(RuntimeError::Network(e));
            },
        }
        let ghost h1 = *host;
        let ghost sub = self.network.subnet.unwrap();
        proof {
            assert(!h0.pool.leased@[sub.index as int]);
            lemma_push_first_index(h0.taps_model(), tap_bare, tap_bare.name);
        }
        let config = match self.generate_microvm_config(entropy) {
            Ok(c) => c,
            Err(e) => {
                let _ = self.network.destroy(host);
                proof {
                    assert(host.taps_model() =~= h0.taps_model());
                    assert(host.pool.leased@ =~= h0.pool.leased@);
                }
                return Err(e);
            },
        };
        if !create_ok {
            let _ = self.network.destroy(host);
            proof {
                assert(host.taps_model() =~= h0.taps_model());
                assert(host.pool.leased@ =~= h0.pool.leased@);
            }
            return Err(RuntimeError::FirecrackerApi);
        }
        match self.network.preboot(host, outbound) {
            Ok(_) => {},
            Err(e) => {
                return Err(RuntimeError::Network(e));
            },
        }
        let ghost h2 = *host;
        let ghost tap_wired = TapModel {
            name: spec_tap_name(old(self).id@),
            addr: Some((sub.net + 1) as u32),
            up: true,
        };
        proof {
            assert(h2.taps_model() =~= h0.taps_model().push(tap_wired));
        }
        if !start_ok {
            let _ = self.network.destroy(host);
            proof {
                lemma_push_first_index(h0.taps_model(), tap_wired, tap_wired.name);
                assert(host.taps_model() =~= h0.taps_model());
                assert(host.pool.leased@ =~= h0.pool.leased@);
                let added = spec_instance_rules(
                    spec_tap_name(old(self).id@),
                    outbound@,
                    sub.net,
                    spec_rule_tag(old(self).id@),
                );
                assert(forall|k: int|
                    0 <= k < added.len() ==> (#[trigger] added[k]).tag == spec_rule_tag(
                        old(self).id@,
                    ));
                lemma_remove_tagged_append(
                    h0.rules_model(),
                    added,
                    spec_rule_tag(old(self).id@),
                );
            }
            return Err(RuntimeError::FirecrackerApi);
        }
        self.machine = Some(Machine { state: MachineState::Running });
        Ok(config)
    }

    /// Stop the instance: refuse with `NotRunning`, touching nothing, when
    /// no machine handle is held; otherwise kill the guest (a kill failure
    /// is logged and teardown continues) and tear the network down, so
    /// that this instance's tap, rules and subnet are gone.
    pub fn down(&mut self, host: &mut HostState, kill_ok: bool) -> (r: Result<(), RuntimeError>)
        requires
            old(self).wf(),
            old(host).wf(),
            old(self).network.subnet_in(*old(host)),
        ensures
            final(self).id == old(self).id,
            final(self).wf(),
            final(host).wf(),
            match old(self).machine {
                None => {
                    &&& r == Err::<(), RuntimeError>(RuntimeError::NotRunning)
                    &&& *final(self) == *old(self)
                    &&& *final(host) == *old(host)
                },
                Some(_) => {
                    &&& r == Ok::<(), RuntimeError>(())
                    &&& final(self).machine is None
                    &&& final(self).file_path == old(self).file_path
                    &&& final(self).function_config == old(self).function_config
                    &&& final(self).network.phase == NetPhase::Destroyed
                    &&& final(self).network.subnet is None
                    &&& final(host).rules_model() == remove_tagged(
                        old(host).rules_model(),
                        spec_rule_tag(old(self).id@),
                    )
                    &&& final(host).taps_model() == (if old(host).has_tap(
                        spec_tap_name(old(self).id@),
                    ) {
                        old(host).taps_model().remove(
                            first_tap_index(
                                old(host).taps_model(),
                                spec_tap_name(old(self).id@),
                            ),
                        )
                    } else {
                        old(host).taps_model()
                    })
                    &&& final(host).pool.base == old(host).pool.base
                    &&& final(host).pool.leased@ == (match old(self).network.subnet {
                        Some(s) => old(host).pool.leased@.update(s.index as int, false),
                        None => old(host).pool.leased@,
                    })
                },
            },
    {
        if self.machine.is_none() {
            return Err(RuntimeError::NotRunning);
        }
        self.machine = None;
        let _ = kill_ok;
        let _ = self.network.destroy(host);
        Ok(())
    }
}

/// For every successful `up` and `down` pair the host returns to its
/// state before the `up`: the taps, the rules and the leased subnets are
/// each exactly what they were. Stated over the transitions that the two
/// calls promise in their contracts, for an instance the host was fresh
/// for.
pub proof fn lemma_up_down_leak_free(
    h0: HostState,
    h1: HostState,
    h2: HostState,
    id: Seq<u8>,
    outbound: Seq<u8>,
    sub: crate::ip_pool::Subnet,
)
    requires
        h0.fresh_for(id),
        0 <= sub.index < h0.pool.leased@.len(),
        !h0.pool.leased@[sub.index as int],
        // what a successful `up` promises:
        h1.taps_model() == h0.taps_model().push(
            TapModel { name: spec_tap_name(id), addr: Some((sub.net + 1) as u32), up: true },
        ),
        h1.rules_model() == h0.rules_model() + spec_instance_rules(
            spec_tap_name(id),
            outbound,
            sub.net,
            spec_rule_tag(id),
        ),
        h1.pool.leased@ == h0.pool.leased@.update(sub.index as int, true),
        // what a successful `down` promises:
        h2.rules_model() == remove_tagged(h1.rules_model(), spec_rule_tag(id)),
        h2.taps_model() == (if h1.has_tap(spec_tap_name(id)) {
            h1.taps_model().remove(first_tap_index(h1.taps_model(), spec_tap_name(id)))
        } else {
            h1.taps_model()
        }),
        h2.pool.leased@ == h1.pool.leased@.update(sub.index as int, false),
    ensures
        h2.taps_model() == h0.taps_model(),
        h2.rules_model() == h0.rules_model(),
        h2.pool.leased@ == h0.pool.leased@,
{
    let tap_wired = TapModel {
        name: spec_tap_name(id),
        addr: Some((sub.net + 1) as u32),
        up: true,
    };
    lemma_push_first_index(h0.taps_model(), tap_wired, spec_tap_name(id));
    assert(h2.taps_model() =~= h0.taps_model());
    let added = spec_instance_rules(spec_tap_name(id), outbound, sub.net, spec_rule_tag(id));
    assert(forall|k: int|
        0 <= k < added.len() ==> (#[trigger] added[k]).tag == spec_rule_tag(id));
    lemma_remove_tagged_append(h0.rules_model(), added, spec_rule_tag(id));
    assert(h2.rules_model() == h0.rules_model());
    assert(h2.pool.leased@ =~= h0.pool.leased@);
}

/// The cache directory for a workload: `/tmp/<name>`.
pub open spec fn spec_download_dir(name: Seq<u8>) -> Seq<u8> {
    "/tmp/".spec_bytes() + name
}

/// The cached rootfs of a workload: `/tmp/<name>/rootfs.ext4`.
pub open spec fn spec_rootfs_path(name: Seq<u8>) -> Seq<u8> {
    spec_download_dir(name) + "/rootfs.ext4".spec_bytes()
}

/// What `create_fs` does to the cache and returns, as a relation between
/// the filesystem before and after, for a workload `w` whose download
/// came back as `outcome`. The cases, in the order the code meets them:
/// no rootfs URL; a cache hit, which touches nothing; the download
/// directory already present, an error; a transport failure or a non-200
/// status, after which the download directory is gone; and a completed
/// download, which leaves exactly the directory and the file.
pub open spec fn create_fs_post(
    pre: crate::fetcher::FsState,
    post: crate::fetcher::FsState,
    w: crate::workload::WorkloadModel,
    outcome: crate::fetcher::FetchOutcome,
    r: Result<Seq<u8>, RuntimeError>,
) -> bool {
    let dir = spec_download_dir(w.name);
    let dest = spec_rootfs_path(w.name);
    if w.rootfs_url is None {
        &&& r matches Err(RuntimeError::Other(m)) && m@ == "Rootfs url not found".spec_bytes()
        &&& post == pre
    } else if pre.has_file(dest) {
        &&& r == Ok::<Seq<u8>, RuntimeError>(dest)
        &&& post == pre
    } else if pre.has_dir(dir) {
        &&& r == Err::<Seq<u8>, RuntimeError>(RuntimeError::Io)
        &&& post == pre
    } else {
        match outcome {
            crate::fetcher::FetchOutcome::TransportError => {
                &&& r == Err::<Seq<u8>, RuntimeError>(RuntimeError::Fetching)
                &&& post.dirs_model() == crate::fetcher::remove_dir_entry(pre.dirs_model(), dir)
                &&& post.files_model() == crate::fetcher::remove_under(pre.files_model(), dir)
            },
            crate::fetcher::FetchOutcome::Completed { code, body } => {
                if code != 200 {
                    &&& r == Err::<Seq<u8>, RuntimeError>(RuntimeError::Http(code))
                    &&& post.dirs_model() == crate::fetcher::remove_dir_entry(
                        pre.dirs_model(),
                        dir,
                    )
                    &&& post.files_model() == crate::fetcher::remove_under(
                        pre.files_model(),
                        dir,
                    )
                } else {
                    &&& r == Ok::<Seq<u8>, RuntimeError>(dest)
                    &&& post.dirs_model() == pre.dirs_model().push(dir)
                    &&& post.files_model() == pre.files_model().push(
                        crate::fetcher::FileModel { path: dest, contents: body@ },
                    )
                    &&& post.has_file(dest)
                    &&& post.file_contents(dest) == body@
                }
            },
        }
    }
}

/// Factory for function-flavored runtime instances. Stateless: it parses
/// the scheduling message, readies the rootfs cache, and assembles the
/// instance; the caller then invokes `up`.
pub struct FunctionRuntimeManager {}

impl FunctionRuntimeManager {
    /// Record a completed download: a transport failure is `Fetching`, a
    /// non-200 status is `Http` with the code, and only a 200 body is
    /// written to disk, whole, after the full transfer.
    pub fn download_image(
        &self,
        url: &Vec<u8>,
        file_path: &Vec<u8>,
        fs: &mut crate::fetcher::FsState,
        outcome: crate::fetcher::FetchOutcome,
    ) -> (r: Result<(), RuntimeError>)
        ensures
            match outcome {
                crate::fetcher::FetchOutcome::TransportError => r == Err::<(), RuntimeError>(
                    RuntimeError::Fetching,
                ) && *final(fs) == *old(fs),
                crate::fetcher::FetchOutcome::Completed { code, body } => {
                    if code != 200 {
                        &&& r == Err::<(), RuntimeError>(RuntimeError::Http(code))
                        &&& *final(fs) == *old(fs)
                    } else {
                        &&& r == Ok::<(), RuntimeError>(())
                        &&& final(fs).dirs_model() == old(fs).dirs_model()
                        &&& final(fs).files_model() == (if old(fs).has_file(file_path@) {
                            old(fs).files_model().update(
                                crate::fetcher::first_file_index(
                                    old(fs).files_model(),
                                    file_path@,
                                ),
                                crate::fetcher::FileModel {
                                    path: file_path@,
                                    contents: body@,
                                },
                            )
                        } else {
                            old(fs).files_model().push(
                                crate::fetcher::FileModel {
                                    path: file_path@,
                                    contents: body@,
                                },
                            )
                        })
                        &&& final(fs).has_file(file_path@)
                        &&& final(fs).file_contents(file_path@) == body@
                    }
                },
            },
    {
        let _ = url;
        match outcome {
            crate::fetcher::FetchOutcome::TransportError => Err(RuntimeError::Fetching),
            crate::fetcher::FetchOutcome::Completed { code, body } => {
                if code != 200 {
                    Err(RuntimeError::Http(code))
                } else {
                    fs.write_file(copy_bytes(file_path), body);
                    Ok(())
                }
            },
        }
    }

    /// Ready the rootfs for a workload: a cached file is reused as it is;
    /// otherwise the download directory is created, the image fetched, and
    /// on any failure the directory is removed again before the error is
    /// passed on. Returns the path of the cached rootfs.
    pub fn create_fs(
        &self,
        workload: &crate::workload::WorkloadDefinition,
        fs: &mut crate::fetcher::FsState,
        outcome: crate::fetcher::FetchOutcome,
    ) -> (r: Result<Vec<u8>, RuntimeError>)
        ensures
            create_fs_post(
                *old(fs),
                *final(fs),
                workload@,
                outcome,
                match r {
                    Ok(p) => Ok(p@),
                    Err(e) => Err(e),
                },
            ),
    {
        let url = match workload.get_rootfs_url() {
            Some(u) => u,
            None => {
                return Err(RuntimeError::Other(lit("Rootfs url not found")));
            },
        };
        let mut dir = lit("/tmp/");
        push_bytes(&mut dir, workload.name.as_slice());
        let mut path = copy_bytes(&dir);
        let tail = lit("/rootfs.ext4");
        push_bytes(&mut path, tail.as_slice());
        assert(dir@ =~= spec_download_dir(workload@.name));
        assert(path@ =~= spec_rootfs_path(workload@.name));
        if fs.file_exists(&path) {
            return Ok(path);
        }
        match fs.create_dir(&dir) {
            Ok(_) => {},
            Err(_) => {
                return Err(RuntimeError::Io);
            },
        }
        let ghost mid = *fs;
        match self.download_image(url, &path, fs, outcome) {
            Ok(_) => {},
            Err(e) => {
                fs.remove_dir_all(&dir);
                proof {
                    reveal(Seq::filter);
                    assert(mid.dirs_model().drop_last() =~= old(fs).dirs_model());
                    assert(fs.dirs_model() =~= crate::fetcher::remove_dir_entry(
                        old(fs).dirs_model(),
                        dir@,
                    ));
                }
                return Err(e);
            },
        }
        Ok(path)
    }

    /// Materialize a runtime instance from a scheduling decision: parse
    /// the embedded definition, ready the rootfs, and hand back an
    /// instance that owns a still-uninitialized network and no machine.
    pub fn create_runtime(
        &self,
        workload: &crate::workload::InstanceScheduling,
        config: FnConfiguration,
        fs: &mut crate::fetcher::FsState,
        outcome: crate::fetcher::FetchOutcome,
    ) -> (r: Result<FunctionRuntime, RuntimeError>)
        requires
            2 * workload.definition@.len() + 8 <= usize::MAX,
        ensures
            match crate::workload::spec_parse_workload(workload.definition@) {
                None => r == Err::<FunctionRuntime, RuntimeError>(RuntimeError::Parsing)
                    && *final(fs) == *old(fs),
                Some(m) => {
                    match r {
                        Ok(rt) => {
                            &&& rt.id@ == workload.instance_id@
                            &&& rt.machine is None
                            &&& rt.network.phase == NetPhase::Uninitialized
                            &&& rt.network.instance_id@ == workload.instance_id@
                            &&& rt.network.subnet is None
                            &&& rt.wf()
                            &&& rt.function_config == config
                            &&& rt.file_path@ == spec_rootfs_path(m.name)
                            &&& create_fs_post(
                                *old(fs),
                                *final(fs),
                                m,
                                outcome,
                                Ok(rt.file_path@),
                            )
                        },
                        Err(e) => {
                            &&& e != RuntimeError::Parsing
                            &&& create_fs_post(*old(fs), *final(fs), m, outcome, Err(e))
                        },
                    }
                },
            },
    {
        let definition = match crate::workload::parse_workload(&workload.definition) {
            Ok(d) => d,
            Err(e) => {
                return Err(e);
            },
        };
        let file_path = match self.create_fs(&definition, fs, outcome) {
            Ok(p) => p,
            Err(e) => {
                proof {
                    lemma_create_fs_error_not_parsing(
                        *old(fs),
                        *fs,
                        definition@,
                        outcome,
                        e,
                    );
                }
                return Err(e);
            },
        };
        Ok(
            FunctionRuntime {
                id: copy_bytes(&workload.instance_id),
                function_config: config,
                file_path,
                network: FunctionRuntimeNetwork::new(copy_bytes(&workload.instance_id)),
                machine: None,
            },
        )
    }
}

/// The errors of the cache step are never the parse error.
proof fn lemma_create_fs_error_not_parsing(
    pre: crate::fetcher::FsState,
    post: crate::fetcher::FsState,
    w: crate::workload::WorkloadModel,
    outcome: crate::fetcher::FetchOutcome,
    e: RuntimeError,
)
    requires
        create_fs_post(pre, post, w, outcome, Err(e)),
    ensures
        e != RuntimeError::Parsing,
{
}

/// Cache monotonicity: once the rootfs of a workload is in the cache,
/// readying it again returns the same path, does not touch the
/// filesystem, and leaves the file's contents exactly as they were.
pub proof fn lemma_cache_monotonic(
    pre: crate::fetcher::FsState,
    post: crate::fetcher::FsState,
    w: crate::workload::WorkloadModel,
    outcome: crate::fetcher::FetchOutcome,
    r: Result<Seq<u8>, RuntimeError>,
)
    requires
        create_fs_post(pre, post, w, outcome, r),
        w.rootfs_url is Some,
        pre.has_file(spec_rootfs_path(w.name)),
    ensures
        r == Ok::<Seq<u8>, RuntimeError>(spec_rootfs_path(w.name)),
        post == pre,
        post.file_contents(spec_rootfs_path(w.name)) == pre.file_contents(
            spec_rootfs_path(w.name),
        ),
{
}

/// A registry that answers 404 yields `Http(404)` and leaves no download
/// directory behind.
pub proof fn lemma_http_error_cleans_up(
    pre: crate::fetcher::FsState,
    post: crate::fetcher::FsState,
    w: crate::workload::WorkloadModel,
    body: Vec<u8>,
    r: Result<Seq<u8>, RuntimeError>,
)
    requires
        create_fs_post(
            pre,
            post,
            w,
            crate::fetcher::FetchOutcome::Completed { code: 404, body },
            r,
        ),
        w.rootfs_url is Some,
        !pre.has_file(spec_rootfs_path(w.name)),
        !pre.has_dir(spec_download_dir(w.name)),
    ensures
        r == Err::<Seq<u8>, RuntimeError>(RuntimeError::Http(404)),
        !post.has_dir(spec_download_dir(w.name)),
{
    crate::fetcher::lemma_remove_dir_entry_gone(pre.dirs_model(), spec_download_dir(w.name));
}

} // verus!
