use rik::errors::{NetworkError, RuntimeError};
use rik::fetcher::{FetchOutcome, FsState};
use rik::network::{FunctionRuntimeNetwork, HostState, NetPhase};
use rik::runtime::{
    boot_args, FnConfiguration, FunctionRuntime, FunctionRuntimeManager, MachineState,
    BOOT_ARGS_STATIC,
};
use rik::workload::{parse_workload, InstanceScheduling};

fn config() -> FnConfiguration {
    FnConfiguration {
        firecracker_location: b"/usr/bin/firecracker".to_vec(),
        kernel_location: b"/var/lib/rik/vmlinux".to_vec(),
    }
}

fn fresh_runtime(id: &str) -> FunctionRuntime {
    FunctionRuntime {
        id: id.as_bytes().to_vec(),
        function_config: config(),
        file_path: b"/tmp/hello/rootfs.ext4".to_vec(),
        network: FunctionRuntimeNetwork::new(id.as_bytes().to_vec()),
        machine: None,
    }
}

const ENTROPY: [u8; 6] = [0xAB, 0xCD, 0xEF, 0x01, 0x02, 0x03];

#[test]
fn boot_args_exact() {
    let expected = format!(
        "{} ip=10.0.0.2::10.0.0.1:255.255.255.252::eth0:off",
        BOOT_ARGS_STATIC
    );
    assert_eq!(boot_args(0x0A000002, 0x0A000001), expected.as_bytes().to_vec());
}

#[test]
fn up_wires_everything() {
    let mut host = HostState::new(0x0A000000, 16384);
    let mut rt = fresh_runtime("inst-1");
    let cfg = rt.up(&mut host, &b"eth0".to_vec(), &ENTROPY, true, true).unwrap();

    assert_eq!(rt.machine.map(|m| m.state), Some(MachineState::Running));
    assert_eq!(rt.network.phase, NetPhase::Wired);
    assert_eq!(host.taps.len(), 1);
    assert_eq!(host.taps[0].addr, Some(0x0A000001));
    assert!(host.taps[0].up);
    assert_eq!(host.rules.len(), 3);

    assert_eq!(cfg.vm_id, b"inst-1".to_vec());
    assert_eq!(cfg.drive_id, b"rootfs".to_vec());
    assert!(cfg.drive_is_root);
    assert_eq!(cfg.drive_path_on_host, b"/tmp/hello/rootfs.ext4".to_vec());
    assert_eq!(cfg.iface_id, b"eth0".to_vec());
    assert_eq!(cfg.chroot, b"/srv/firecracker".to_vec());
    assert_eq!(cfg.exec_binary, b"/usr/bin/firecracker".to_vec());
    assert_eq!(cfg.kernel_image_path, b"/var/lib/rik/vmlinux".to_vec());
    assert_eq!(cfg.guest_mac, b"aa:cd:ef:01:02:03".to_vec());
    assert_eq!(
        cfg.boot_args,
        boot_args(0x0A000002, 0x0A000001)
    );
    assert_eq!(cfg.host_dev_name, rik::net_utils::tap_name(&b"inst-1".to_vec()));
}

#[test]
fn up_then_down_leaks_nothing() {
    let mut host = HostState::new(0x0A000000, 16384);
    let mut rt = fresh_runtime("inst-1");
    rt.up(&mut host, &b"eth0".to_vec(), &ENTROPY, true, true).unwrap();
    rt.down(&mut host, true).unwrap();

    assert_eq!(host.taps.len(), 0);
    assert_eq!(host.rules.len(), 0);
    assert_eq!(rt.machine, None);
    let reused = host.pool.allocate().unwrap();
    assert_eq!(reused.net, 0x0A000000);
}

#[test]
fn failed_create_restores_host() {
    let mut host = HostState::new(0x0A000000, 16384);
    let mut rt = fresh_runtime("inst-1");
    let r = rt.up(&mut host, &b"eth0".to_vec(), &ENTROPY, false, true);
    assert_eq!(r, Err(RuntimeError::FirecrackerApi));
    assert_eq!(host.taps.len(), 0);
    assert_eq!(host.rules.len(), 0);
    assert_eq!(rt.machine, None);
    assert_eq!(host.pool.allocate().unwrap().net, 0x0A000000);
}

#[test]
fn failed_start_restores_host() {
    let mut host = HostState::new(0x0A000000, 16384);
    let mut rt = fresh_runtime("inst-1");
    let r = rt.up(&mut host, &b"eth0".to_vec(), &ENTROPY, true, false);
    assert_eq!(r, Err(RuntimeError::FirecrackerApi));
    assert_eq!(host.taps.len(), 0);
    assert_eq!(host.rules.len(), 0);
    assert_eq!(rt.machine, None);
}

#[test]
fn exhausted_pool_fails_up() {
    let mut host = HostState::new(0x0A000000, 1);
    let mut first = fresh_runtime("inst-1");
    first.up(&mut host, &b"eth0".to_vec(), &ENTROPY, true, true).unwrap();
    let mut second = fresh_runtime("inst-2");
    let r = second.up(&mut host, &b"eth0".to_vec(), &ENTROPY, true, true);
    assert_eq!(r, Err(RuntimeError::Network(NetworkError::PoolExhausted)));
    // the first instance is untouched
    assert_eq!(host.taps.len(), 1);
    assert_eq!(host.rules.len(), 3);
}

#[test]
fn down_without_up_is_not_running() {
    let mut host = HostState::new(0x0A000000, 16384);
    let mut rt = fresh_runtime("inst-1");
    assert_eq!(rt.down(&mut host, true), Err(RuntimeError::NotRunning));
    assert_eq!(host.taps.len(), 0);
    assert_eq!(host.rules.len(), 0);
}

#[test]
fn config_requires_paths() {
    let mut host = HostState::new(0x0A000000, 16384);
    let mut rt = fresh_runtime("inst-1");
    rt.function_config.kernel_location = Vec::new();
    rt.network.init(&mut host).unwrap();
    let r = rt.generate_microvm_config(&ENTROPY);
    assert_eq!(r, Err(RuntimeError::FirepilotConfiguration));
}

fn function_workload() -> rik::workload::WorkloadDefinition {
    let body = "{\"api_version\":\"v0\",\"kind\":\"function\",\"name\":\"hello\",\"spec\":{\"function\":{\"rootfs_url\":\"http://registry/rootfs.ext4\"}}}";
    parse_workload(&body.as_bytes().to_vec()).unwrap()
}

#[test]
fn create_fs_downloads_once() {
    let fm = FunctionRuntimeManager {};
    let mut fs = FsState::new();
    let w = function_workload();
    let outcome = FetchOutcome::Completed { code: 200, body: b"rootfs-bytes".to_vec() };
    let path = fm.create_fs(&w, &mut fs, outcome).unwrap();
    assert_eq!(path, b"/tmp/hello/rootfs.ext4".to_vec());
    assert_eq!(fs.read_file(&path), Some(b"rootfs-bytes".to_vec()));

    // cache hit: a second call returns the same path and changes nothing,
    // whatever the registry would have said
    let again = fm
        .create_fs(&w, &mut fs, FetchOutcome::Completed { code: 500, body: Vec::new() })
        .unwrap();
    assert_eq!(again, path);
    assert_eq!(fs.read_file(&path), Some(b"rootfs-bytes".to_vec()));
    assert_eq!(fs.files.len(), 1);
    assert_eq!(fs.dirs.len(), 1);
}

#[test]
fn create_fs_500_cleans_up() {
    let fm = FunctionRuntimeManager {};
    let mut fs = FsState::new();
    let w = function_workload();
    let r = fm.create_fs(&w, &mut fs, FetchOutcome::Completed { code: 500, body: Vec::new() });
    assert_eq!(r, Err(RuntimeError::Http(500)));
    assert_eq!(fs.dirs.len(), 0);
    assert_eq!(fs.files.len(), 0);
}

#[test]
fn create_fs_404_cleans_up() {
    let fm = FunctionRuntimeManager {};
    let mut fs = FsState::new();
    let w = function_workload();
    let r = fm.create_fs(&w, &mut fs, FetchOutcome::Completed { code: 404, body: Vec::new() });
    assert_eq!(r, Err(RuntimeError::Http(404)));
    assert_eq!(fs.dirs.len(), 0);
}

#[test]
fn create_fs_transport_error() {
    let fm = FunctionRuntimeManager {};
    let mut fs = FsState::new();
    let w = function_workload();
    let r = fm.create_fs(&w, &mut fs, FetchOutcome::TransportError);
    assert_eq!(r, Err(RuntimeError::Fetching));
    assert_eq!(fs.dirs.len(), 0);
}

#[test]
fn create_fs_without_url_fails() {
    let fm = FunctionRuntimeManager {};
    let mut fs = FsState::new();
    let body = "{\"api_version\":\"v0\",\"kind\":\"function\",\"name\":\"x\",\"spec\":{}}";
    let w = parse_workload(&body.as_bytes().to_vec()).unwrap();
    let r = fm.create_fs(&w, &mut fs, FetchOutcome::TransportError);
    assert_eq!(r, Err(RuntimeError::Other(b"Rootfs url not found".to_vec())));
}

#[test]
fn create_fs_existing_dir_is_io_error() {
    let fm = FunctionRuntimeManager {};
    let mut fs = FsState::new();
    let w = function_workload();
    fs.create_dir(&b"/tmp/hello".to_vec()).unwrap();
    let r = fm.create_fs(&w, &mut fs, FetchOutcome::Completed { code: 200, body: Vec::new() });
    assert_eq!(r, Err(RuntimeError::Io));
}

#[test]
fn create_runtime_end_to_end() {
    let fm = FunctionRuntimeManager {};
    let mut fs = FsState::new();
    let sched = InstanceScheduling {
        instance_id: b"inst-1".to_vec(),
        definition: "{\"api_version\":\"v0\",\"kind\":\"function\",\"name\":\"hello\",\"spec\":{\"function\":{\"rootfs_url\":\"http://registry/rootfs.ext4\"}}}".as_bytes().to_vec(),
    };
    let outcome = FetchOutcome::Completed { code: 200, body: vec![0u8; 4096] };
    let rt = fm.create_runtime(&sched, config(), &mut fs, outcome).unwrap();
    assert_eq!(rt.id, b"inst-1".to_vec());
    assert_eq!(rt.file_path, b"/tmp/hello/rootfs.ext4".to_vec());
    assert_eq!(rt.machine, None);
    assert_eq!(rt.network.phase, NetPhase::Uninitialized);
}

#[test]
fn create_runtime_rejects_bad_definition() {
    let fm = FunctionRuntimeManager {};
    let mut fs = FsState::new();
    let sched = InstanceScheduling {
        instance_id: b"inst-1".to_vec(),
        definition: b"not json".to_vec(),
    };
    let r = fm.create_runtime(&sched, config(), &mut fs, FetchOutcome::TransportError);
    assert_eq!(r.err(), Some(RuntimeError::Parsing));
    assert_eq!(fs.dirs.len(), 0);
}

#[test]
fn download_image_writes_only_on_200() {
    let fm = FunctionRuntimeManager {};
    let mut fs = FsState::new();
    let url = b"http://registry/rootfs.ext4".to_vec();
    let path = b"/tmp/x/rootfs.ext4".to_vec();
    assert_eq!(
        fm.download_image(&url, &path, &mut fs, FetchOutcome::TransportError),
        Err(RuntimeError::Fetching)
    );
    assert_eq!(
        fm.download_image(&url, &path, &mut fs, FetchOutcome::Completed { code: 503, body: b"oops".to_vec() }),
        Err(RuntimeError::Http(503))
    );
    assert!(!fs.file_exists(&path));
    fm.download_image(&url, &path, &mut fs, FetchOutcome::Completed { code: 200, body: b"img".to_vec() })
        .unwrap();
    assert_eq!(fs.read_file(&path), Some(b"img".to_vec()));
}

#[test]
fn hundred_instances_get_distinct_subnets() {
    let mut host = HostState::new(0x0A000000, 16384);
    let mut guest_ips = Vec::new();
    for i in 0..100 {
        let mut rt = fresh_runtime(&format!("fn-{}", i));
        rt.up(&mut host, &b"eth0".to_vec(), &ENTROPY, true, true).unwrap();
        let sub = rt.network.subnet.unwrap();
        let guest = sub.net + 2;
        assert!(guest >= 0x0A000000 && guest < 0x0A000000 + 4 * 16384);
        assert!(!guest_ips.contains(&guest));
        guest_ips.push(guest);
    }
    assert_eq!(host.taps.len(), 100);
    assert_eq!(host.rules.len(), 300);
}
