use psutil::cpu_fields::{parse_address_sizes, parse_cache_size, parse_decimal, parse_yes_no};
use psutil::descriptor::parse_blocks;
use psutil::{CpuTopology, Decimal, Error};

fn block(processor: u64, physical_id: u64, core_id: u64) -> String {
    format!(
        "processor\t: {processor}\n\
vendor_id\t: GenuineIntel\n\
cpu family\t: 6\n\
model\t\t: 158\n\
model name\t: Intel(R) Core(TM) i7-8700 CPU @ 3.20GHz\n\
stepping\t: 10\n\
microcode\t: 0xf4\n\
cpu MHz\t\t: 3200.000\n\
cache size\t: 12288 KB\n\
physical id\t: {physical_id}\n\
siblings\t: 12\n\
core id\t\t: {core_id}\n\
cpu cores\t: 6\n\
apicid\t\t: 0\n\
initial apicid\t: 0\n\
fpu\t\t: yes\n\
fpu_exception\t: yes\n\
cpuid level\t: 22\n\
wp\t\t: no\n\
flags\t\t: fpu vme de pse\n\
bugs\t\t: cpu_meltdown spectre_v1\n\
bogomips\t: 6399.96\n\
clflush size\t: 64\n\
cache_alignment\t: 64\n\
address sizes\t: 39 bits physical, 48 bits virtual\n\
power management:\n"
    )
}

#[test]
fn two_siblings_of_one_core() {
    let text = format!("{}\n{}", block(0, 0, 0), block(1, 0, 0));
    let t = CpuTopology::parse_cpuinfo(&text);
    assert_eq!(t.total_logical_cores(), 2);
    assert_eq!(t.physical_count(), 1);
    assert_eq!(t.total_physical_cores(), 1);
    let groups = t.group_by_core_id();
    assert_eq!(groups.len(), 1);
    assert_eq!(groups[&0], vec![0, 1]);
}

#[test]
fn missing_vendor_id_is_missing_field() {
    let text = block(0, 0, 0).replace("vendor_id\t: GenuineIntel\n", "");
    assert_eq!(CpuTopology::parse_cpuinfo(&text).total_logical_cores(), 0);
    let per_block = CpuTopology::parse_cpuinfo_blocks(&text);
    assert_eq!(per_block.len(), 1);
    assert!(matches!(&per_block[0], Err(Error::MissingField { key }) if key == "vendor_id"));
}

#[test]
fn malformed_field_is_parse_failure() {
    let text = block(0, 0, 0).replace("stepping\t: 10", "stepping\t: ten");
    match &CpuTopology::parse_cpuinfo_blocks(&text)[0] {
        Err(Error::ParseFailure { path, contents }) => {
            assert_eq!(path, "stepping");
            assert_eq!(contents, "ten");
        }
        _ => panic!("expected a parse failure"),
    }
}

#[test]
fn one_bad_block_spoils_only_itself_per_block() {
    let bad = block(1, 0, 1).replace("fpu\t\t: yes", "fpu\t\t: maybe");
    let text = format!("{}\n\n\n{}\n{}", block(0, 0, 0), bad, block(2, 0, 2));
    let per_block = CpuTopology::parse_cpuinfo_blocks(&text);
    assert_eq!(per_block.len(), 3);
    assert!(per_block[0].is_ok());
    assert!(per_block[1].is_err());
    assert_eq!(per_block[2].as_ref().unwrap().processor(), 2);
    let t = CpuTopology::parse_cpuinfo(&text);
    assert_eq!(t.total_logical_cores(), 2);
    assert_eq!(t.cores()[0].processor(), 0);
    assert_eq!(t.cores()[1].processor(), 2);
}

#[test]
fn record_fields_are_read_by_kind() {
    let t = CpuTopology::parse_cpuinfo(&block(3, 1, 2));
    let c = &t.cores()[0];
    assert_eq!(c.processor(), 3);
    assert_eq!(c.vendor_id(), "GenuineIntel");
    assert_eq!(c.cpu_family(), 6);
    assert_eq!(c.model(), 158);
    assert_eq!(c.model_name(), "Intel(R) Core(TM) i7-8700 CPU @ 3.20GHz");
    assert_eq!(c.stepping(), 10);
    assert_eq!(c.microcode(), "0xf4");
    assert_eq!(c.cpu_mhz(), Decimal { whole: 3200, frac: 0, frac_digits: 3 });
    assert_eq!(c.cache_size_kb(), 12288);
    assert_eq!(c.physical_id(), 1);
    assert_eq!(c.siblings(), 12);
    assert_eq!(c.core_id(), 2);
    assert_eq!(c.cpu_cores(), 6);
    assert!(c.has_fpu());
    assert!(c.has_fpu_exception());
    assert!(!c.has_wp());
    assert_eq!(c.cpuid_level(), 22);
    assert_eq!(c.flags(), &["fpu", "vme", "de", "pse"]);
    assert_eq!(c.vmx_flags(), None);
    assert_eq!(c.bugs().unwrap(), &["cpu_meltdown", "spectre_v1"]);
    assert_eq!(c.bogomips(), Decimal { whole: 6399, frac: 96, frac_digits: 2 });
    assert_eq!(c.clflush_size(), 64);
    assert_eq!(c.cache_alignment(), 64);
    assert_eq!(c.address_sizes(), (39, 48));
    assert_eq!(c.power_management(), Some(""));
}

#[test]
fn later_duplicate_processor_wins_and_order_is_ascending() {
    let text = format!("{}\n{}\n{}", block(5, 0, 1), block(2, 0, 0), block(5, 1, 7));
    let t = CpuTopology::parse_cpuinfo(&text);
    assert_eq!(t.total_logical_cores(), 2);
    assert_eq!(t.cores()[0].processor(), 2);
    assert_eq!(t.cores()[1].processor(), 5);
    assert_eq!(t.cores()[1].core_id(), 7);
    assert_eq!(t.physical_count(), 2);
}

#[test]
fn queries_over_cores() {
    let text = format!("{}\n{}\n{}\n{}", block(0, 0, 0), block(1, 0, 1), block(2, 0, 0), block(3, 1, 1));
    let t = CpuTopology::parse_cpuinfo(&text);
    assert_eq!(t.find_processor_by_core_id(1), Some(1));
    assert_eq!(t.find_processor_by_core_id(0), Some(0));
    assert_eq!(t.find_processor_by_core_id(9), None);
    assert_eq!(t.total_physical_cores(), 2);
    assert_eq!(t.physical_count(), 2);
    let g = t.group_by_core_id();
    assert_eq!(g[&0], vec![0, 2]);
    assert_eq!(g[&1], vec![1, 3]);
    let f = t.cpu_freq();
    assert_eq!(f.len(), 4);
    assert_eq!(f[&3], Decimal { whole: 3200, frac: 0, frac_digits: 3 });
}

#[test]
fn empty_text_gives_empty_topology() {
    let t = CpuTopology::parse_cpuinfo("");
    assert_eq!(t.total_logical_cores(), 0);
    assert_eq!(t.physical_count(), 0);
    assert_eq!(t.find_processor_by_core_id(0), None);
}

#[test]
fn blocks_split_on_blank_lines_and_keep_last_duplicate_key() {
    let b = parse_blocks("a : 1\nb: 2\n  \n\nno colon here\nc :3\nc: 4 \n");
    assert_eq!(b.len(), 2);
    assert_eq!(b[0], vec![("a".to_string(), "1".to_string()), ("b".to_string(), "2".to_string())]);
    assert_eq!(b[1].len(), 2);
    assert_eq!(b[1][1], ("c".to_string(), "4".to_string()));
}

#[test]
fn field_value_parsers() {
    assert_eq!(parse_yes_no("yes"), Some(true));
    assert_eq!(parse_yes_no("no"), Some(false));
    assert_eq!(parse_yes_no("Yes"), None);
    assert_eq!(parse_cache_size("8192 KB"), Some(8192));
    assert_eq!(parse_cache_size(""), None);
    assert_eq!(parse_cache_size("KB"), None);
    assert_eq!(parse_address_sizes("39 bits physical, 48 bits virtual"), Some((39, 48)));
    assert_eq!(parse_address_sizes("39 bits physical"), None);
    assert_eq!(parse_address_sizes("39 bits physical, 48 bits virtual, 1"), None);
    assert_eq!(parse_address_sizes("x bits physical, 48 bits virtual"), None);
    assert_eq!(parse_decimal("2400.5"), Some(Decimal { whole: 2400, frac: 5, frac_digits: 1 }));
    assert_eq!(parse_decimal("17"), Some(Decimal { whole: 17, frac: 0, frac_digits: 0 }));
    assert_eq!(parse_decimal(".25"), Some(Decimal { whole: 0, frac: 25, frac_digits: 2 }));
    assert_eq!(parse_decimal("."), None);
    assert_eq!(parse_decimal("1.2.3"), None);
    assert_eq!(parse_decimal("18446744073709551616"), None);
}
