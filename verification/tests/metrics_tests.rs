use libcrun_shim::metrics::{
    find_cgroup_path, read_blkio_metrics, read_cpu_metrics, read_memory_metrics,
    read_network_metrics, read_number, read_pids_metrics, MemoryFiles,
};

#[test]
fn cgroup_paths() {
    assert_eq!(find_cgroup_path("0::/user.slice/app.scope\n").unwrap(), "/sys/fs/cgroup/user.slice/app.scope");
    let v1 = "12:pids:/a\n4:cpu,cpuacct:/b\n3:rw,memory:/docker/abc\n";
    assert_eq!(find_cgroup_path(v1).unwrap(), "/sys/fs/cgroup/memory/docker/abc");
    let both = "5:memory:/old\n0::/new\n";
    assert_eq!(find_cgroup_path(both).unwrap(), "/sys/fs/cgroup/new");
    assert_eq!(find_cgroup_path("0:x:/not-unified\n"), None);
    assert_eq!(find_cgroup_path(""), None);
    assert_eq!(find_cgroup_path("0::/a:b").unwrap(), "/sys/fs/cgroup/a");
}

#[test]
fn one_value_files() {
    assert_eq!(read_number(Some("42\n"), 0, 7), 42);
    assert_eq!(read_number(Some("max\n"), 0, u64::MAX), u64::MAX);
    assert_eq!(read_number(None, 5, 7), 5);
    let pids = read_pids_metrics(Some("3\n"), Some("max\n"));
    assert_eq!((pids.current, pids.limit), (3, 0));
    let pids = read_pids_metrics(None, Some("100"));
    assert_eq!((pids.current, pids.limit), (0, 100));
}

#[test]
fn cpu_from_cpu_stat() {
    let stat = "usage_usec 1500\nuser_usec 1000\nsystem_usec 500\nnr_periods 9\nnr_throttled 2\nthrottled_usec 30\n";
    let cpu = read_cpu_metrics(Some(stat), Some("999")).unwrap();
    assert_eq!(cpu.usage_total, 1_500_000);
    assert_eq!(cpu.usage_user, 1_000_000);
    assert_eq!(cpu.usage_system, 500_000);
    assert_eq!(cpu.throttled_periods, 2);
    assert_eq!(cpu.throttled_time, 30_000);
}

#[test]
fn cpu_falls_back_to_cpuacct() {
    let cpu = read_cpu_metrics(None, Some(" 123456789\n")).unwrap();
    assert_eq!(cpu.usage_total, 123456789);
    let cpu = read_cpu_metrics(Some("usage_usec 0\nuser_usec 5"), Some("77")).unwrap();
    assert_eq!((cpu.usage_total, cpu.usage_user), (77, 5000));
    let cpu = read_cpu_metrics(Some("usage_usec x"), None).unwrap();
    assert_eq!(cpu.usage_total, 0);
    assert!(read_cpu_metrics(Some("usage_usec 18446744073709552"), None).is_none());
}

#[test]
fn memory_v2_and_v1() {
    let files = MemoryFiles {
        current: Some("1000\n".to_string()),
        max: Some("max\n".to_string()),
        peak: Some("2000".to_string()),
        swap_current: Some("5".to_string()),
        stat: Some("anon 300\nfile 600\nkernel 1\n".to_string()),
        usage_in_bytes: Some("9".to_string()),
        limit_in_bytes: None,
        max_usage_in_bytes: None,
    };
    let m = read_memory_metrics(&files);
    assert_eq!((m.usage, m.limit, m.max_usage, m.swap, m.rss, m.cache), (1000, u64::MAX, 2000, 5, 300, 600));

    let v1 = MemoryFiles {
        usage_in_bytes: Some("4096\n".to_string()),
        limit_in_bytes: Some("8192\n".to_string()),
        max_usage_in_bytes: Some("5000".to_string()),
        ..Default::default()
    };
    let m = read_memory_metrics(&v1);
    assert_eq!((m.usage, m.limit, m.max_usage, m.swap), (4096, 8192, 5000, 0));

    let m = read_memory_metrics(&MemoryFiles::default());
    assert_eq!((m.usage, m.limit, m.max_usage), (0, 0, 0));
}

#[test]
fn block_io() {
    let io = "8:0 rbytes=100 wbytes=200 rios=3 wios=4 dbytes=0\n8:16 rbytes=1 wbytes=2 rios=3 wios=4\n";
    let b = read_blkio_metrics(Some(io), Some("8:0 Read 999")).unwrap();
    assert_eq!((b.read_bytes, b.write_bytes, b.read_ops, b.write_ops), (101, 202, 6, 8));

    let v1 = "8:0 Read 10\n8:0 Write 20\n8:0 Sync 5\n8:16 Read 1\nTotal 31\n";
    let b = read_blkio_metrics(None, Some(v1)).unwrap();
    assert_eq!((b.read_bytes, b.write_bytes), (11, 20));

    let b = read_blkio_metrics(Some("8:0 wbytes=7"), Some(v1)).unwrap();
    assert_eq!((b.read_bytes, b.write_bytes), (11, 27));

    assert!(read_blkio_metrics(Some("a rbytes=18446744073709551615\nb rbytes=1"), None).is_none());
}

#[test]
fn network_devices() {
    let dev = "Inter-|   Receive                                                |  Transmit\n \
 face |bytes    packets errs drop fifo frame compressed multicast|bytes    packets errs drop fifo colls carrier compressed\n    \
lo: 500 5 0 0 0 0 0 0 500 5 0 0 0 0 0 0\n  \
eth0: 1000 10 1 2 0 0 0 0 2000 20 3 4 0 0 0 0\n  \
eth1: 1 1 0 0 0 0 0 0 1 1 0 0 0 0 0 0\n";
    let n = read_network_metrics(Some(dev)).unwrap();
    assert_eq!((n.rx_bytes, n.rx_packets, n.rx_errors, n.rx_dropped), (1001, 11, 1, 2));
    assert_eq!((n.tx_bytes, n.tx_packets, n.tx_errors, n.tx_dropped), (2001, 21, 3, 4));

    let n = read_network_metrics(None).unwrap();
    assert_eq!(n.rx_bytes, 0);
    let n = read_network_metrics(Some("h1\nh2\nshort line\n")).unwrap();
    assert_eq!(n.tx_bytes, 0);
    assert!(read_network_metrics(Some("h1\nh2\neth0: 1 2 3 4 5 6 7 8 9 10\n")).is_none());
}
