use psutil::filesystem::FileSystem;
use psutil::{parse_environ, pids, Error};

#[test]
fn test_parse_environ() {
    let data = "HOME=/\0init=/sbin/init\0recovery=\0TERM=linux\0BOOT_IMAGE=/boot/vmlinuz-3.13.0-128-generic\0PATH=/sbin:/usr/sbin:/bin:/usr/bin\0PWD=/\0rootmnt=/root\0";
    let env = parse_environ(data).unwrap();
    assert_eq!(env.get("HOME").unwrap(), "/");
    assert_eq!(env.get("rootmnt").unwrap(), "/root");
    assert_eq!(env.get("recovery").unwrap(), "");
}

#[test]
fn environ_edge_cases() {
    let env = parse_environ("A=1\0A=2\0B=x=y").unwrap();
    assert_eq!(env.get("A").unwrap(), "2");
    assert_eq!(env.get("B").unwrap(), "x=y");
    assert_eq!(env.get("C"), None);
    assert_eq!(parse_environ("").unwrap().vars.len(), 0);
    assert!(matches!(parse_environ("A=1\0broken\0"), Err(Error::ParseFailure { contents, .. }) if contents == "broken"));
}

#[test]
fn pids_from_entry_names() {
    let names: Vec<String> = ["1", "self", "42", "+7", "4294967296", "sys", "003"].iter().map(|s| s.to_string()).collect();
    assert_eq!(pids(&names), vec![1, 42, 7, 3]);
}

#[test]
fn filesystem_names() {
    assert_eq!(FileSystem::from_name("EXT4"), FileSystem::Ext4);
    assert_eq!(FileSystem::from_name("HfsPlus"), FileSystem::HfsPlus);
    assert_eq!(FileSystem::HfsPlus.as_str(), "hfs+");
    assert_eq!(FileSystem::Reiser3.as_str(), "reiserfs");
    let t = FileSystem::from_name("tmpfs");
    assert_eq!(t, FileSystem::Other("tmpfs".to_string()));
    assert_eq!(t.as_str(), "tmpfs");
    assert!(t.is_virtual());
    assert!(!t.is_physical());
    assert!(FileSystem::Btrfs.is_physical());
    let p: FileSystem = "FuseBlk".parse().unwrap();
    assert_eq!(p, FileSystem::FuseBlk);
}
