use std::collections::BTreeMap;
use oaas::doc::{Number, Value};
use oaas::system_snapshot::{
    core_changes, json_as_string, json_as_u32, json_as_u64, parse_meminfo, parse_nvidia_csv, parse_proc_stat,
    parse_vmrss_kb, proc_stat_fits, read_stat_line, rocm_gpus, CoreSample, GpuSnap, StatRead,
};

fn s(x: &str) -> Value {
    Value::Str(x.to_string())
}

fn map(entries: Vec<(&str, Value)>) -> Value {
    Value::Mapping(entries.into_iter().map(|(k, v)| (s(k), v)).collect())
}

#[test]
fn meminfo_in_mib() {
    let text = "MemTotal:       16384000 kB\nMemFree:  100 kB\nMemAvailable:    8192000 kB\n";
    assert_eq!(parse_meminfo(text), (Some(16000), Some(8000)));
    assert_eq!(parse_meminfo("MemTotal: lots\n"), (None, None));
    assert_eq!(parse_meminfo(""), (None, None));
}

#[test]
fn vmrss_first_line_decides() {
    assert_eq!(parse_vmrss_kb("Name:\toaas\nVmRSS:\t  123456 kB\nVmRSS: 1 kB\n"), Some(123456));
    assert_eq!(parse_vmrss_kb("VmRSS: 12 MB\nVmRSS: 1 kB\n"), None);
    assert_eq!(parse_vmrss_kb("Name: x\n"), None);
}

#[test]
fn nvidia_csv_lines() {
    let text = "NVIDIA GeForce RTX 3060, 1024, 12288, 35\n\n bad line \nA100, x, 40960, 5\r\n";
    let gpus = parse_nvidia_csv(text);
    assert_eq!(
        gpus,
        vec![
            GpuSnap {
                vendor: "nvidia".to_string(),
                name: "NVIDIA GeForce RTX 3060".to_string(),
                memory_used_mb: Some(1024),
                memory_total_mb: Some(12288),
                gpu_util_percent: Some(35)
            },
            GpuSnap {
                vendor: "nvidia".to_string(),
                name: "A100".to_string(),
                memory_used_mb: None,
                memory_total_mb: Some(40960),
                gpu_util_percent: Some(5)
            },
        ]
    );
}

#[test]
fn json_numbers_as_text_and_integers() {
    assert_eq!(json_as_string(&s("gfx")).as_deref(), Some("gfx"));
    assert_eq!(json_as_string(&Value::Num(Number::NegInt(-3))).as_deref(), Some("-3"));
    assert_eq!(json_as_string(&Value::Num(Number::PosInt(u64::MAX))), None);
    assert_eq!(json_as_u64(&s("42")), Some(42));
    assert_eq!(json_as_u64(&Value::Num(Number::NegInt(-1))), Some(u64::MAX));
    assert_eq!(json_as_u64(&Value::Num(Number::Float("1.5".to_string()))), None);
    assert_eq!(json_as_u32(&s(" 37% ")), Some(37));
    assert_eq!(json_as_u32(&s("45 %")), Some(45));
    assert_eq!(json_as_u32(&s("% 8")), Some(8));
    assert_eq!(json_as_u32(&Value::Num(Number::PosInt(4294967297))), Some(1));
    assert_eq!(json_as_u32(&Value::Bool(true)), None);
}

#[test]
fn rocm_cards() {
    let card0 = map(vec![
        ("Card Model", s("0x744c")),
        ("Card Series", s("Radeon RX 7900 XTX")),
        ("GPU use (%)", s("12")),
        ("VRAM Total Memory (B)", s("25753026560")),
        ("VRAM Total Used Memory (B)", Value::Num(Number::PosInt(1073741824))),
    ]);
    let card1 = map(vec![("Card series", Value::Null)]);
    let root = map(vec![("card0", card0), ("card1", card1), ("system", s("x"))]);
    let gpus = rocm_gpus(&root);
    assert_eq!(gpus.len(), 2);
    assert_eq!(gpus[0].name, "Radeon RX 7900 XTX");
    assert_eq!(gpus[0].gpu_util_percent, Some(12));
    assert_eq!(gpus[0].memory_total_mb, Some(24560));
    assert_eq!(gpus[0].memory_used_mb, Some(1024));
    assert_eq!(gpus[1].name, "AMD GPU");
    assert_eq!(gpus[1].vendor, "amd");
    assert!(rocm_gpus(&s("x")).is_empty());
}

#[test]
fn stat_lines() {
    assert_eq!(read_stat_line("cpu  1 2 3 4 5 6"), StatRead::Skip);
    assert_eq!(read_stat_line("cpu0 10 0 10 70 10 0 0"), StatRead::Entry(0, 80, 100));
    assert_eq!(read_stat_line("cpu1 1 2 3"), StatRead::Skip);
    assert_eq!(read_stat_line("intr 1 2 3 4"), StatRead::Skip);
    assert_eq!(read_stat_line(""), StatRead::Bad);
    assert_eq!(read_stat_line("cpux 1 2 3 4"), StatRead::Bad);
    assert_eq!(read_stat_line("cpu2 18446744073709551615 1 0 0"), StatRead::TooLarge);
}

#[test]
fn proc_stat_table() {
    let text = "cpu  9 9 9 9\ncpu1 0 0 10 90 0\ncpu0 5 0 5 40\ncpu1 0 0 20 180 0\nintr 5\n";
    assert!(proc_stat_fits(text));
    assert_eq!(parse_proc_stat(text), Some(BTreeMap::from([(0, (40, 50)), (1, (180, 200))])));
    assert_eq!(parse_proc_stat("cpu 1 2 3 4\n"), None);
    assert_eq!(parse_proc_stat("cpu0 1 2 3 4\n\ncpu1 1 2 3 4\n"), None);
    assert!(!proc_stat_fits("cpu0 18446744073709551615 1 0 0\n"));
}

#[test]
fn core_changes_between_readings() {
    let a = BTreeMap::from([(2, (5, 5)), (0, (40, 50)), (1, (100, 200))]);
    let b = BTreeMap::from([(0, (60, 150)), (2, (5, 5))]);
    let c = core_changes(&a, &b);
    assert_eq!(
        c,
        vec![
            CoreSample { index: 0, busy_and_total: Some((80, 100)) },
            CoreSample { index: 2, busy_and_total: None },
        ]
    );
}
