//! The machine metrics of `/oaas/system.json`, read from Linux's `/proc`
//! files and from the GPU tools (`nvidia-smi` CSV, `rocm-smi --json`).
use vstd::prelude::*;

use std::collections::BTreeMap;
use vstd::std_specs::iter::IteratorSpec;

use crate::doc::{as_str, get_entry, get_key, str_of, untag, untagged, NumberModel, Number, Tree, Value, entry_models};
use crate::runtime::which_path;
use crate::text::{
    all_digits, decimal, fmt_i64, has_prefix, has_suffix, lines, lines_of, owned, parse_u32, parse_u64,
    parse_unsigned, push_char, signed_decimal, split_char, split_on, starts_with, str_eq, strip_prefix,
    strip_suffix, to_chars, trim, trim_ws, views, words, words_of,
};

verus! {

// ---------------------------------------------------------------------------
// /proc/meminfo and /proc/<pid>/status
// ---------------------------------------------------------------------------

/// The kB count of a `/proc` field `<n> kB` (the text after the key).
pub open spec fn kb_field(rest: Seq<char>) -> Option<nat> {
    let t = trim_ws(rest);
    if has_suffix(t, " kB"@) {
        parse_unsigned(t.take(t.len() - " kB"@.len()), u64::MAX as nat)
    } else {
        None
    }
}

/// A kB count in MiB, rounded down.
pub open spec fn kb_to_mib_floor(k: Option<nat>) -> Option<u64> {
    match k {
        Some(n) => Some((n / 1024) as u64),
        None => None,
    }
}

/// The kB count of a field of a `/proc` file.
fn kb_value(rest: &str) -> (r: Option<u64>)
    ensures
        match kb_field(rest@) {
            Some(n) => r == Some(n as u64),
            None => r is None,
        },
{
    let t = trim(rest);
    match strip_suffix(t.as_str(), " kB") {
        Some(num) => parse_u64(num.as_str()),
        None => None,
    }
}

/// Total and available memory in MiB from the lines of `/proc/meminfo`:
/// the last `MemTotal:` and `MemAvailable:` lines decide.
pub open spec fn meminfo_of(ls: Seq<Seq<char>>) -> (Option<u64>, Option<u64>)
    decreases ls.len(),
{
    if ls.len() == 0 {
        (None, None)
    } else {
        let r = meminfo_of(ls.drop_last());
        let l = ls.last();
        if has_prefix(l, "MemTotal:"@) {
            (kb_to_mib_floor(kb_field(l.skip("MemTotal:"@.len() as int))), r.1)
        } else if has_prefix(l, "MemAvailable:"@) {
            (r.0, kb_to_mib_floor(kb_field(l.skip("MemAvailable:"@.len() as int))))
        } else {
            r
        }
    }
}

/// Total and available memory in MiB, from the text of `/proc/meminfo`.
pub fn parse_meminfo(text: &str) -> (r: (Option<u64>, Option<u64>))
    ensures
        r == meminfo_of(lines_of(text@)),
{
    let ls = lines(text);
    let ghost lv = views(ls@);
    let mut total: Option<u64> = None;
    let mut avail: Option<u64> = None;
    let mut i: usize = 0;
    assert(lv.take(0) =~= Seq::<Seq<char>>::empty());
    while i < ls.len()
        invariant
            0 <= i <= ls.len(),
            lv == views(ls@),
            (total, avail) == meminfo_of(lv.take(i as int)),
        decreases ls.len() - i,
    {
        let l = &ls[i];
        assert(l@ == lv[i as int]);
        assert(lv.take(i + 1).drop_last() =~= lv.take(i as int));
        match strip_prefix(l.as_str(), "MemTotal:") {
            Some(rest) => {
                total = match kb_value(rest.as_str()) {
                    Some(k) => Some(k / 1024),
                    None => None,
                };
            },
            None => match strip_prefix(l.as_str(), "MemAvailable:") {
                Some(rest) => {
                    avail = match kb_value(rest.as_str()) {
                        Some(k) => Some(k / 1024),
                        None => None,
                    };
                },
                None => {},
            },
        }
        i += 1;
    }
    assert(lv.take(i as int) =~= lv);
    (total, avail)
}

/// The resident size in kB from the lines of `/proc/<pid>/status`: the
/// first `VmRSS:` line decides.
pub open spec fn vmrss_of(ls: Seq<Seq<char>>) -> Option<nat>
    decreases ls.len(),
{
    if ls.len() == 0 {
        None
    } else if has_prefix(ls[0], "VmRSS:"@) {
        kb_field(ls[0].skip("VmRSS:"@.len() as int))
    } else {
        vmrss_of(ls.skip(1))
    }
}

/// The resident size in kB, from the text of `/proc/<pid>/status`.
pub fn parse_vmrss_kb(text: &str) -> (r: Option<u64>)
    ensures
        match vmrss_of(lines_of(text@)) {
            Some(n) => r == Some(n as u64),
            None => r is None,
        },
{
    let ls = lines(text);
    let ghost lv = views(ls@);
    let mut i: usize = 0;
    assert(lv.skip(0) =~= lv);
    while i < ls.len()
        invariant
            0 <= i <= ls.len(),
            lv == views(ls@),
            lv == lines_of(text@),
            vmrss_of(lv) == vmrss_of(lv.skip(i as int)),
        decreases ls.len() - i,
    {
        let l = &ls[i];
        assert(lv.skip(i as int)[0] == l@);
        assert(lv.skip(i as int).len() > 0);
        match strip_prefix(l.as_str(), "VmRSS:") {
            Some(rest) => {
                return kb_value(rest.as_str());
            },
            None => {},
        }
        assert(lv.skip(i as int).skip(1) =~= lv.skip(i + 1));
        i += 1;
    }
    None
}

// ---------------------------------------------------------------------------
// GPUs
// ---------------------------------------------------------------------------

/// One GPU as the metrics show it.
#[derive(Debug, Clone, PartialEq, Eq)]
pub struct GpuSnap {
    pub vendor: String,
    pub name: String,
    pub memory_used_mb: Option<u64>,
    pub memory_total_mb: Option<u64>,
    pub gpu_util_percent: Option<u32>,
}

/// The model of a [`GpuSnap`]: vendor, name, used and total memory (MiB),
/// utilisation (%).
pub type GpuModel = (Seq<char>, Seq<char>, Option<u64>, Option<u64>, Option<u32>);

impl GpuSnap {
    pub open spec fn model(self) -> GpuModel {
        (self.vendor@, self.name@, self.memory_used_mb, self.memory_total_mb, self.gpu_util_percent)
    }
}

/// The models of a list of GPUs.
pub open spec fn gpu_models(v: Seq<GpuSnap>) -> Seq<GpuModel> {
    v.map_values(|g: GpuSnap| g.model())
}

/// `str::parse::<u64>`, as an option.
pub open spec fn opt_u64(s: Seq<char>) -> Option<u64> {
    match parse_unsigned(s, u64::MAX as nat) {
        Some(n) => Some(n as u64),
        None => None,
    }
}

/// `str::parse::<u32>`, as an option.
pub open spec fn opt_u32(s: Seq<char>) -> Option<u32> {
    match parse_unsigned(s, u32::MAX as nat) {
        Some(n) => Some(n as u32),
        None => None,
    }
}

/// The GPU of one line of `nvidia-smi --query-gpu=name,memory.used,
/// memory.total,utilization.gpu --format=csv,noheader,nounits`: none for
/// a blank line or one with fewer than four fields.
pub open spec fn nvidia_line(line: Seq<char>) -> Option<GpuModel> {
    let l = trim_ws(line);
    let parts = split_on(l, ',');
    if l.len() == 0 || parts.len() < 4 {
        None
    } else {
        Some(
            (
                "nvidia"@,
                trim_ws(parts[0]),
                opt_u64(trim_ws(parts[1])),
                opt_u64(trim_ws(parts[2])),
                opt_u32(trim_ws(parts[3])),
            ),
        )
    }
}

/// The GPUs of the lines of `nvidia-smi`'s CSV output, in order.
pub open spec fn nvidia_gpus_of(ls: Seq<Seq<char>>) -> Seq<GpuModel>
    decreases ls.len(),
{
    if ls.len() == 0 {
        seq![]
    } else {
        let r = nvidia_gpus_of(ls.drop_last());
        match nvidia_line(ls.last()) {
            Some(g) => r.push(g),
            None => r,
        }
    }
}

fn parse_opt_u64(s: &str) -> (r: Option<u64>)
    ensures
        r == opt_u64(s@),
{
    parse_u64(s)
}

fn parse_opt_u32(s: &str) -> (r: Option<u32>)
    ensures
        r == opt_u32(s@),
{
    parse_u32(s)
}

/// The GPUs that `nvidia-smi` lists in its CSV output `text`.
pub fn parse_nvidia_csv(text: &str) -> (v: Vec<GpuSnap>)
    ensures
        gpu_models(v@) == nvidia_gpus_of(lines_of(text@)),
{
    let ls = lines(text);
    let ghost lv = views(ls@);
    let mut gpus: Vec<GpuSnap> = Vec::new();
    let mut i: usize = 0;
    assert(lv.take(0) =~= Seq::<Seq<char>>::empty());
    assert(gpu_models(gpus@) =~= Seq::<GpuModel>::empty());
    while i < ls.len()
        invariant
            0 <= i <= ls.len(),
            lv == views(ls@),
            gpu_models(gpus@) == nvidia_gpus_of(lv.take(i as int)),
        decreases ls.len() - i,
    {
        let ghost before = gpus@;
        assert(ls[i as int]@ == lv[i as int]);
        assert(lv.take(i + 1).drop_last() =~= lv.take(i as int));
        let l = trim(ls[i].as_str());
        let parts = split_char(l.as_str(), ',');
        if to_chars(l.as_str()).len() > 0 && parts.len() >= 4 {
            assert(parts[0]@ == split_on(l@, ',')[0]);
            assert(parts[1]@ == split_on(l@, ',')[1]);
            assert(parts[2]@ == split_on(l@, ',')[2]);
            assert(parts[3]@ == split_on(l@, ',')[3]);
            let name = trim(parts[0].as_str());
            let used = trim(parts[1].as_str());
            let total = trim(parts[2].as_str());
            let util = trim(parts[3].as_str());
            let g = GpuSnap {
                vendor: owned("nvidia"),
                name,
                memory_used_mb: parse_opt_u64(used.as_str()),
                memory_total_mb: parse_opt_u64(total.as_str()),
                gpu_util_percent: parse_opt_u32(util.as_str()),
            };
            gpus.push(g);
            assert(gpu_models(gpus@) =~= gpu_models(before).push(g.model()));
        }
        assert(gpu_models(gpus@) =~= nvidia_gpus_of(lv.take(i + 1)));
        i += 1;
    }
    assert(lv.take(i as int) =~= lv);
    gpus
}


/// `s` without any `c` (`str::replace(c, "")`).
pub open spec fn without_char(s: Seq<char>, c: char) -> Seq<char>
    decreases s.len(),
{
    if s.len() == 0 {
        s
    } else if s.last() == c {
        without_char(s.drop_last(), c)
    } else {
        without_char(s.drop_last(), c).push(s.last())
    }
}

fn remove_char(s: &str, c: char) -> (r: String)
    ensures
        r@ == without_char(s@, c),
{
    let v = to_chars(s);
    let mut r = String::new();
    let mut i: usize = 0;
    assert(v@.take(0) =~= Seq::<char>::empty());
    while i < v.len()
        invariant
            0 <= i <= v.len(),
            v@ == s@,
            r@ == without_char(v@.take(i as int), c),
        decreases v.len() - i,
    {
        assert(v@.take(i + 1).drop_last() =~= v@.take(i as int));
        if v[i] != c {
            push_char(&mut r, v[i]);
        }
        i += 1;
    }
    assert(v@.take(i as int) =~= v@);
    r
}

/// `serde_json::Value::as_i64`.
pub open spec fn json_i64(t: Tree) -> Option<i64> {
    match t {
        Tree::Num(NumberModel::PosInt(n)) => if n <= i64::MAX {
            Some(n as i64)
        } else {
            None
        },
        Tree::Num(NumberModel::NegInt(n)) => Some(n),
        _ => None,
    }
}

/// A JSON value as text: a string, or an integer that fits `i64` in decimal.
pub open spec fn json_string(t: Tree) -> Option<Seq<char>> {
    match t {
        Tree::Str(s) => Some(s),
        _ => match json_i64(t) {
            Some(n) => Some(signed_decimal(n as int)),
            None => None,
        },
    }
}

/// A JSON value as `u64`: a non-negative integer, a negative one cast to
/// `u64`, or a string that parses.
pub open spec fn json_u64(t: Tree) -> Option<u64> {
    match t {
        Tree::Num(NumberModel::PosInt(n)) => Some(n),
        Tree::Num(NumberModel::NegInt(n)) => Some(n as u64),
        Tree::Str(s) => opt_u64(s),
        _ => None,
    }
}

/// A JSON value as `u32`: an integer cast to `u32`, or a string that parses
/// once stripped of `%` and then trimmed (so `"45 %"` reads as 45).
pub open spec fn json_u32(t: Tree) -> Option<u32> {
    match t {
        Tree::Num(NumberModel::PosInt(n)) => Some(n as u32),
        Tree::Num(NumberModel::NegInt(n)) => Some(n as u32),
        Tree::Str(s) => opt_u32(trim_ws(without_char(s, '%'))),
        _ => None,
    }
}

/// A JSON value as text.
pub fn json_as_string(v: &Value) -> (r: Option<String>)
    ensures
        opt_seq(r) == json_string(v.model()),
{
    match v {
        Value::Str(s) => Some(owned(s.as_str())),
        Value::Num(Number::PosInt(n)) => if *n <= 9223372036854775807u64 {
            Some(fmt_i64(*n as i64))
        } else {
            None
        },
        Value::Num(Number::NegInt(n)) => Some(fmt_i64(*n)),
        _ => None,
    }
}

/// A JSON value as `u64`.
pub fn json_as_u64(v: &Value) -> (r: Option<u64>)
    ensures
        r == json_u64(v.model()),
{
    match v {
        Value::Num(Number::PosInt(n)) => Some(*n),
        Value::Num(Number::NegInt(n)) => Some(*n as u64),
        Value::Str(s) => parse_opt_u64(s.as_str()),
        _ => None,
    }
}

/// A JSON value as `u32`.
pub fn json_as_u32(v: &Value) -> (r: Option<u32>)
    ensures
        r == json_u32(v.model()),
{
    match v {
        Value::Num(Number::PosInt(n)) => Some(*n as u32),
        Value::Num(Number::NegInt(n)) => Some(*n as u32),
        Value::Str(s) => {
            let d = remove_char(s.as_str(), '%');
            let t = trim(d.as_str());
            parse_opt_u32(t.as_str())
        },
        _ => None,
    }
}

pub open spec fn opt_seq(o: Option<String>) -> Option<Seq<char>> {
    match o {
        Some(s) => Some(s@),
        None => None,
    }
}

/// The value under the first of `keys` that `m` has.
pub open spec fn first_present(m: Seq<(Tree, Tree)>, keys: Seq<Seq<char>>) -> Option<Tree>
    decreases keys.len(),
{
    if keys.len() == 0 {
        None
    } else {
        match get_key(m, keys[0]) {
            Some(v) => Some(v),
            None => first_present(m, keys.skip(1)),
        }
    }
}

/// The keys that name a card, in order of preference.
pub open spec fn name_keys() -> Seq<Seq<char>> {
    seq!["Card Series"@, "Card Model"@, "Card series"@]
}

/// The keys of the utilisation, in order of preference.
pub open spec fn util_keys() -> Seq<Seq<char>> {
    seq!["GPU use (%)"@, "GPU Utilization (%)"@]
}

/// The keys of the used VRAM, in order of preference.
pub open spec fn used_keys() -> Seq<Seq<char>> {
    seq!["VRAM Total Used Memory (B)"@, "VRAM Used Memory (B)"@]
}

/// Bytes in MiB, rounded down.
pub open spec fn bytes_to_mib(b: Option<u64>) -> Option<u64> {
    match b {
        Some(n) => Some(n / 1048576u64),
        None => None,
    }
}

/// The GPU of one card of `rocm-smi --json` (none when the card is not an
/// object).
pub open spec fn rocm_card(card: Tree) -> Option<GpuModel> {
    match card {
        Tree::Mapping(co) => {
            let name = match first_present(co, name_keys()) {
                Some(v) => match json_string(v) {
                    Some(s) => s,
                    None => "AMD GPU"@,
                },
                None => "AMD GPU"@,
            };
            let util = match first_present(co, util_keys()) {
                Some(v) => json_u32(v),
                None => None,
            };
            let total = match get_key(co, "VRAM Total Memory (B)"@) {
                Some(v) => bytes_to_mib(json_u64(v)),
                None => None,
            };
            let used = match first_present(co, used_keys()) {
                Some(v) => bytes_to_mib(json_u64(v)),
                None => None,
            };
            Some(("amd"@, name, used, total, util))
        },
        _ => None,
    }
}

/// The GPUs of the cards `cards` (entries of the top-level object), in order.
pub open spec fn rocm_cards(cards: Seq<(Tree, Tree)>) -> Seq<GpuModel>
    decreases cards.len(),
{
    if cards.len() == 0 {
        seq![]
    } else {
        let r = rocm_cards(cards.drop_last());
        match rocm_card(cards.last().1) {
            Some(g) => r.push(g),
            None => r,
        }
    }
}

/// The GPUs of the output of `rocm-smi --json` (none unless it is an object).
pub open spec fn rocm_gpus_of(root: Tree) -> Seq<GpuModel> {
    match root {
        Tree::Mapping(m) => rocm_cards(m),
        _ => seq![],
    }
}

/// The value under the first present of two keys.
fn first_of2<'a>(m: &'a Vec<(Value, Value)>, a: &str, b: &str) -> (r: Option<&'a Value>)
    ensures
        opt_model(r) == first_present(entry_models(m@), seq![a@, b@]),
{
    proof {
        reveal_with_fuel(first_present, 3);
        assert(seq![a@, b@].skip(1) =~= seq![b@]);
        assert(seq![b@].skip(1) =~= Seq::<Seq<char>>::empty());
    }
    match get_entry(m, a) {
        Some(v) => Some(v),
        None => get_entry(m, b),
    }
}

/// The value under the first present of three keys.
fn first_of3<'a>(m: &'a Vec<(Value, Value)>, a: &str, b: &str, c: &str) -> (r: Option<&'a Value>)
    ensures
        opt_model(r) == first_present(entry_models(m@), seq![a@, b@, c@]),
{
    proof {
        reveal_with_fuel(first_present, 4);
        assert(seq![a@, b@, c@].skip(1) =~= seq![b@, c@]);
        assert(seq![b@, c@].skip(1) =~= seq![c@]);
        assert(seq![c@].skip(1) =~= Seq::<Seq<char>>::empty());
    }
    match get_entry(m, a) {
        Some(v) => Some(v),
        None => match get_entry(m, b) {
            Some(v) => Some(v),
            None => get_entry(m, c),
        },
    }
}

pub open spec fn opt_model(o: Option<&Value>) -> Option<Tree> {
    match o {
        Some(v) => Some(v.model()),
        None => None,
    }
}

fn rocm_card_of(co: &Vec<(Value, Value)>) -> (g: GpuSnap)
    ensures
        rocm_card(Tree::Mapping(entry_models(co@))) == Some(g.model()),
{
    let name = match first_of3(co, "Card Series", "Card Model", "Card series") {
        Some(v) => match json_as_string(v) {
            Some(s) => s,
            None => owned("AMD GPU"),
        },
        None => owned("AMD GPU"),
    };
    let util = match first_of2(co, "GPU use (%)", "GPU Utilization (%)") {
        Some(v) => json_as_u32(v),
        None => None,
    };
    let total = match get_entry(co, "VRAM Total Memory (B)") {
        Some(v) => match json_as_u64(v) {
            Some(b) => Some(b / 1048576u64),
            None => None,
        },
        None => None,
    };
    let used = match first_of2(co, "VRAM Total Used Memory (B)", "VRAM Used Memory (B)") {
        Some(v) => match json_as_u64(v) {
            Some(b) => Some(b / 1048576u64),
            None => None,
        },
        None => None,
    };
    GpuSnap { vendor: owned("amd"), name, memory_used_mb: used, memory_total_mb: total, gpu_util_percent: util }
}

/// The GPUs that `rocm-smi --json` describes in `v`.
pub fn rocm_gpus(v: &Value) -> (gpus: Vec<GpuSnap>)
    ensures
        gpu_models(gpus@) == rocm_gpus_of(v.model()),
{
    let mut gpus: Vec<GpuSnap> = Vec::new();
    assert(gpu_models(gpus@) =~= Seq::<GpuModel>::empty());
    match v {
        Value::Mapping(m) => {
            proof {
                crate::doc::lemma_entry_models(m@);
            }
            let ghost em = entry_models(m@);
            let mut i: usize = 0;
            assert(em.take(0) =~= Seq::<(Tree, Tree)>::empty());
            while i < m.len()
                invariant
                    0 <= i <= m.len(),
                    em == entry_models(m@),
                    em.len() == m@.len(),
                    forall|k: int| 0 <= k < m@.len() ==> #[trigger] em[k] == (m@[k].0.model(), m@[k].1.model()),
                    gpu_models(gpus@) == rocm_cards(em.take(i as int)),
                decreases m.len() - i,
            {
                let ghost before = gpus@;
                assert(em.take(i + 1).drop_last() =~= em.take(i as int));
                assert(em.take(i + 1).last() == em[i as int]);
                match &m[i].1 {
                    Value::Mapping(co) => {
                        let g = rocm_card_of(co);
                        gpus.push(g);
                        assert(gpu_models(gpus@) =~= gpu_models(before).push(g.model()));
                    },
                    _ => {},
                }
                i += 1;
            }
            assert(em.take(i as int) =~= em);
        },
        _ => {},
    }
    gpus
}

/// Whether `rocm-smi` is on `PATH` (the AMD GPUs are only queried then).
pub fn rocm_smi_on_path() -> (r: bool) {
    which_path("rocm-smi").is_some()
}


// ---------------------------------------------------------------------------
// /proc/stat: per-core jiffies, and their change between two readings
// ---------------------------------------------------------------------------

/// The words of a line that parse as `u64`, in order.
pub open spec fn parsed_nums(ws: Seq<Seq<char>>) -> Seq<nat>
    decreases ws.len(),
{
    if ws.len() == 0 {
        seq![]
    } else {
        let r = parsed_nums(ws.drop_last());
        match parse_unsigned(ws.last(), u64::MAX as nat) {
            Some(n) => r.push(n),
            None => r,
        }
    }
}

/// The sum of `s`.
pub open spec fn sum_of(s: Seq<nat>) -> nat
    decreases s.len(),
{
    if s.len() == 0 {
        0
    } else {
        sum_of(s.drop_last()) + s.last()
    }
}

/// What one line of `/proc/stat` gives.
pub enum StatLine {
    /// Not a `cpuN` line, or fewer than four numbers.
    Skip,
    /// A blank line, or a `cpu…` tag without a number: the whole reading fails.
    Bad,
    /// Core `index`: idle jiffies (`idle + iowait`) and total jiffies.
    Entry(usize, nat, nat),
}

/// What line `l` of `/proc/stat` gives.
pub open spec fn stat_line(l: Seq<char>) -> StatLine {
    let ws = words_of(l);
    if ws.len() == 0 {
        StatLine::Bad
    } else if !has_prefix(ws[0], "cpu"@) || ws[0] == "cpu"@ {
        StatLine::Skip
    } else {
        match parse_unsigned(ws[0].skip("cpu"@.len() as int), usize::MAX as nat) {
            None => StatLine::Bad,
            Some(idx) => {
                let nums = parsed_nums(ws.skip(1));
                if nums.len() < 4 {
                    StatLine::Skip
                } else {
                    StatLine::Entry(
                        idx as usize,
                        nums[3] + (if nums.len() > 4 {
                            nums[4]
                        } else {
                            0
                        }),
                        sum_of(nums),
                    )
                }
            },
        }
    }
}

/// The per-core table of the lines `ls`: each core's index mapped to its
/// idle and total jiffies (the last line of an index wins); `None` once a
/// line is bad.
pub open spec fn stat_fold(ls: Seq<Seq<char>>) -> Option<Map<usize, (u64, u64)>>
    decreases ls.len(),
{
    if ls.len() == 0 {
        Some(Map::empty())
    } else {
        match stat_fold(ls.drop_last()) {
            None => None,
            Some(t) => match stat_line(ls.last()) {
                StatLine::Bad => None,
                StatLine::Skip => Some(t),
                StatLine::Entry(i, idle, total) => Some(t.insert(i, (idle as u64, total as u64))),
            },
        }
    }
}

/// The per-core table of `/proc/stat` (lines `ls`); `None` when a line is
/// bad or no core is listed.
pub open spec fn proc_stat_of(ls: Seq<Seq<char>>) -> Option<Map<usize, (u64, u64)>> {
    match stat_fold(ls) {
        Some(t) => if t.is_empty() {
            None
        } else {
            Some(t)
        },
        None => None,
    }
}

/// Every core line read before a bad one has a total that fits `u64`.
pub open spec fn stat_fits(ls: Seq<Seq<char>>) -> bool
    decreases ls.len(),
{
    ls.len() == 0 || (stat_fits(ls.drop_last()) && (stat_fold(ls.drop_last()) is Some ==> (stat_line(
        ls.last(),
    ) matches StatLine::Entry(_, _, total) ==> total <= u64::MAX)))
}

proof fn lemma_sum_prefix(s: Seq<nat>, k: int)
    requires
        0 <= k <= s.len(),
    ensures
        sum_of(s.take(k)) <= sum_of(s),
    decreases s.len() - k,
{
    if k < s.len() {
        lemma_sum_prefix(s, k + 1);
        assert(s.take(k + 1).drop_last() =~= s.take(k));
    } else {
        assert(s.take(k) =~= s);
    }
}

proof fn lemma_sum_two(s: Seq<nat>)
    requires
        s.len() >= 4,
    ensures
        s[3] + (if s.len() > 4 {
            s[4]
        } else {
            0
        }) <= sum_of(s),
    decreases s.len(),
{
    if s.len() > 5 {
        lemma_sum_two(s.drop_last());
    } else if s.len() == 5 {
        assert(s.drop_last()[3] == s[3]);
        lemma_sum_prefix(s.drop_last(), 4);
        assert(s.drop_last().take(4).drop_last() =~= s.take(3));
        assert(s.drop_last().take(4) =~= s.drop_last());
    } else {
        assert(s.drop_last().len() == 3);
    }
}

/// What one line of `/proc/stat` gives, once read.
#[derive(Debug, Clone, PartialEq, Eq)]
pub enum StatRead {
    Skip,
    Bad,
    Entry(usize, u64, u64),
    /// A core line whose total does not fit `u64`.
    TooLarge,
}

/// The numbers of `ws[1..]` that parse as `u64`.
fn parse_nums(ws: &Vec<String>) -> (v: Vec<u64>)
    requires
        ws@.len() >= 1,
    ensures
        v@.len() == parsed_nums(views(ws@).skip(1)).len(),
        forall|k: int| 0 <= k < v@.len() ==> v@[k] as nat == #[trigger] parsed_nums(views(ws@).skip(1))[k],
{
    let ghost w = views(ws@).skip(1);
    let mut v: Vec<u64> = Vec::new();
    let mut i: usize = 1;
    assert(w.take(0) =~= Seq::<Seq<char>>::empty());
    while i < ws.len()
        invariant
            1 <= i <= ws.len(),
            w == views(ws@).skip(1),
            v@.len() == parsed_nums(w.take(i - 1)).len(),
            forall|k: int| 0 <= k < v@.len() ==> v@[k] as nat == #[trigger] parsed_nums(w.take(i - 1))[k],
        decreases ws.len() - i,
    {
        assert(w.take(i as int).drop_last() =~= w.take(i - 1));
        assert(w.take(i as int).last() == ws[i as int]@);
        match parse_u64(ws[i].as_str()) {
            Some(n) => {
                v.push(n);
            },
            None => {},
        }
        i += 1;
    }
    assert(w.take(i - 1) =~= w);
    v
}

/// What line `l` of `/proc/stat` gives.
pub fn read_stat_line(l: &str) -> (r: StatRead)
    ensures
        match stat_line(l@) {
            StatLine::Skip => r is Skip,
            StatLine::Bad => r is Bad,
            StatLine::Entry(i, idle, total) => if total <= u64::MAX {
                r == StatRead::Entry(i, idle as u64, total as u64)
            } else {
                r is TooLarge
            },
        },
{
    let ws = words(l);
    if ws.len() == 0 {
        return StatRead::Bad;
    }
    let tag = ws[0].as_str();
    assert(tag@ == words_of(l@)[0]);
    if !starts_with(tag, "cpu") || str_eq(tag, "cpu") {
        return StatRead::Skip;
    }
    let rest = match strip_prefix(tag, "cpu") {
        Some(r) => r,
        None => {
            return StatRead::Skip;
        },
    };
    let rv = to_chars(rest.as_str());
    assert(rv@.subrange(0, rv@.len() as int) =~= rv@);
    let idx: usize = match crate::text::parse_unsigned_range(&rv, 0, rv.len(), usize::MAX as u64) {
        Some(x) => x as usize,
        None => {
            return StatRead::Bad;
        },
    };
    let nums = parse_nums(&ws);
    let ghost ns = parsed_nums(views(ws@).skip(1));
    assert(views(ws@).skip(1) =~= words_of(l@).skip(1));
    if nums.len() < 4 {
        return StatRead::Skip;
    }
    let mut total: u64 = 0;
    let mut k: usize = 0;
    assert(ns.take(0) =~= Seq::<nat>::empty());
    assert(stat_line(l@) matches StatLine::Entry(_, _, t) && t == sum_of(ns));
    while k < nums.len()
        invariant
            stat_line(l@) matches StatLine::Entry(_, _, t) && t == sum_of(ns),
            0 <= k <= nums.len(),
            nums@.len() == ns.len(),
            forall|q: int| 0 <= q < nums@.len() ==> nums@[q] as nat == #[trigger] ns[q],
            total as nat == sum_of(ns.take(k as int)),
        decreases nums.len() - k,
    {
        assert(ns.take(k + 1).drop_last() =~= ns.take(k as int));
        assert(ns.take(k + 1).last() == ns[k as int]);
        assert(nums@[k as int] as nat == ns[k as int]);
        match total.checked_add(nums[k]) {
            Some(t) => {
                total = t;
            },
            None => {
                proof {
                    lemma_sum_prefix(ns, k + 1);
                }
                return StatRead::TooLarge;
            },
        }
        k += 1;
    }
    assert(ns.take(k as int) =~= ns);
    proof {
        lemma_sum_two(ns);
        assert(nums@[3] as nat == ns[3]);
        if ns.len() > 4 {
            assert(nums@[4] as nat == ns[4]);
        }
    }
    let extra: u64 = if nums.len() > 4 {
        nums[4]
    } else {
        0
    };
    let idle = nums[3] + extra;
    StatRead::Entry(idx, idle, total)
}

/// The per-core table of the text of `/proc/stat`: each `cpuN` line's index
/// mapped to its idle (`idle + iowait`) and total jiffies (the last line of
/// an index wins); `None` when a line is blank or has a `cpu…` tag without a
/// number, or when no core is listed.
pub fn parse_proc_stat(text: &str) -> (r: Option<BTreeMap<usize, (u64, u64)>>)
    requires
        stat_fits(lines_of(text@)),
    ensures
        match proc_stat_of(lines_of(text@)) {
            Some(t) => r matches Some(m) && m@ == t,
            None => r is None,
        },
{
    let ls = lines(text);
    let ghost lv = views(ls@);
    let mut table: BTreeMap<usize, (u64, u64)> = BTreeMap::new();
    let mut i: usize = 0;
    assert(lv.take(0) =~= Seq::<Seq<char>>::empty());
    assert(table@ =~= Map::<usize, (u64, u64)>::empty());
    while i < ls.len()
        invariant
            0 <= i <= ls.len(),
            lv == views(ls@),
            lv == lines_of(text@),
            stat_fits(lv),
            stat_fold(lv.take(i as int)) == Some(table@),
        decreases ls.len() - i,
    {
        assert(lv.take(i + 1).drop_last() =~= lv.take(i as int));
        assert(lv.take(i + 1).last() == ls[i as int]@);
        proof {
            lemma_stat_fits_prefix(lv, i + 1);
        }
        match read_stat_line(ls[i].as_str()) {
            StatRead::Bad => {
                assert(stat_fold(lv.take(i + 1)) is None);
                proof {
                    lemma_stat_fold_none(lv, i + 1);
                }
                return None;
            },
            StatRead::TooLarge => {
                assert(false);
                return None;
            },
            StatRead::Skip => {},
            StatRead::Entry(idx, idle, total) => {
                table.insert(idx, (idle, total));
            },
        }
        i += 1;
    }
    assert(lv.take(i as int) =~= lv);
    if table.is_empty() {
        None
    } else {
        Some(table)
    }
}

proof fn lemma_stat_fits_prefix(ls: Seq<Seq<char>>, k: int)
    requires
        0 <= k <= ls.len(),
        stat_fits(ls),
    ensures
        stat_fits(ls.take(k)),
    decreases ls.len() - k,
{
    if k < ls.len() {
        lemma_stat_fits_prefix(ls, k + 1);
        assert(ls.take(k + 1).drop_last() =~= ls.take(k));
    } else {
        assert(ls.take(k) =~= ls);
    }
}

proof fn lemma_stat_fold_none(ls: Seq<Seq<char>>, k: int)
    requires
        0 <= k <= ls.len(),
        stat_fold(ls.take(k)) is None,
    ensures
        stat_fold(ls) is None,
    decreases ls.len() - k,
{
    if k < ls.len() {
        assert(ls.take(k + 1).drop_last() =~= ls.take(k));
        lemma_stat_fold_none(ls, k + 1);
    } else {
        assert(ls.take(k) =~= ls);
    }
}

/// Whether the totals of `/proc/stat`'s core lines fit `u64` (the condition
/// [`parse_proc_stat`] needs).
pub fn proc_stat_fits(text: &str) -> (r: bool)
    ensures
        r == stat_fits(lines_of(text@)),
{
    let ls = lines(text);
    let ghost lv = views(ls@);
    let mut ok = true;
    let mut bad = false;
    let mut i: usize = 0;
    assert(lv.take(0) =~= Seq::<Seq<char>>::empty());
    while i < ls.len()
        invariant
            0 <= i <= ls.len(),
            lv == views(ls@),
            lv == lines_of(text@),
            ok == stat_fits(lv.take(i as int)),
            ok ==> (bad == stat_fold(lv.take(i as int)) is None),
        decreases ls.len() - i,
    {
        assert(lv.take(i + 1).drop_last() =~= lv.take(i as int));
        assert(lv.take(i + 1).last() == ls[i as int]@);
        match read_stat_line(ls[i].as_str()) {
            StatRead::Bad => {
                bad = true;
            },
            StatRead::TooLarge => {
                if !bad {
                    ok = false;
                }
            },
            StatRead::Skip => {},
            StatRead::Entry(_, _, _) => {},
        }
        i += 1;
    }
    assert(lv.take(i as int) =~= lv);
    ok
}

/// The change of one core between two readings: its index, and when its
/// total advanced, the busy jiffies and the total jiffies elapsed.
#[derive(Debug, Clone, PartialEq, Eq)]
pub struct CoreSample {
    pub index: usize,
    pub busy_and_total: Option<(u64, u64)>,
}

/// `x - y`, or 0 when `y > x` (`u64::saturating_sub`).
pub open spec fn sat_sub(x: u64, y: u64) -> u64 {
    if x >= y {
        (x - y) as u64
    } else {
        0
    }
}

/// The change of a core from reading `e1` to reading `e2` (each its idle
/// and total jiffies): when the total advanced, the busy jiffies and the
/// total jiffies elapsed.
pub open spec fn core_change(e1: (u64, u64), e2: (u64, u64)) -> Option<(u64, u64)> {
    let dt = sat_sub(e2.1, e1.1);
    if dt > 0 {
        Some((sat_sub(dt, sat_sub(e2.0, e1.0)), dt))
    } else {
        None
    }
}

/// `v` gives the changes between readings `a` and `b`: one sample for each
/// core that both readings list, in increasing index order, with that core's
/// change.
pub open spec fn changes_between(v: Seq<CoreSample>, a: Map<usize, (u64, u64)>, b: Map<usize, (u64, u64)>) -> bool {
    &&& forall|i: int, j: int| 0 <= i < j < v.len() ==> v[i].index < v[j].index
    &&& forall|k: usize|
        #![trigger a.contains_key(k), b.contains_key(k)]
        a.contains_key(k) && b.contains_key(k) ==> exists|i: int| 0 <= i < v.len() && #[trigger] v[i].index == k
    &&& forall|i: int|
        #![trigger v[i]]
        0 <= i < v.len() ==> {
            &&& a.contains_key(v[i].index)
            &&& b.contains_key(v[i].index)
            &&& v[i].busy_and_total == core_change(a[v[i].index], b[v[i].index])
        }
}

/// The busy share of a core between two readings is a fraction: whenever
/// the total advanced, the busy jiffies are no more than the total elapsed.
pub proof fn law_core_change_bounded(e1: (u64, u64), e2: (u64, u64))
    ensures
        core_change(e1, e2) matches Some(bt) ==> bt.1 > 0 && bt.0 <= bt.1,
        core_change(e1, e2) is None <==> e2.1 <= e1.1,
{
}

/// The changes between two readings are determined by the readings: two
/// lists that both give them are the same list.
pub proof fn law_changes_determined(
    v1: Seq<CoreSample>,
    v2: Seq<CoreSample>,
    a: Map<usize, (u64, u64)>,
    b: Map<usize, (u64, u64)>,
)
    requires
        changes_between(v1, a, b),
        changes_between(v2, a, b),
    ensures
        v1 == v2,
    decreases v1.len() + v2.len(),
{
    if v1.len() == 0 && v2.len() == 0 {
        assert(v1 =~= v2);
    } else if v1.len() == 0 {
        let k = v2[0].index;
        assert(a.contains_key(k) && b.contains_key(k));
    } else if v2.len() == 0 {
        let k = v1[0].index;
        assert(a.contains_key(k) && b.contains_key(k));
    } else {
        let k1 = v1[0].index;
        let k2 = v2[0].index;
        assert(a.contains_key(k1) && b.contains_key(k1));
        assert(a.contains_key(k2) && b.contains_key(k2));
        let j2 = choose|i: int| 0 <= i < v2.len() && #[trigger] v2[i].index == k1;
        let j1 = choose|i: int| 0 <= i < v1.len() && #[trigger] v1[i].index == k2;
        assert(v2[0].index <= v2[j2].index);
        assert(v1[0].index <= v1[j1].index);
        assert(k1 == k2);
        assert(v1[0] == v2[0]);
        let a2 = a.remove(k1);
        let r1 = v1.drop_first();
        let r2 = v2.drop_first();
        assert forall|k: usize|
            #![trigger a2.contains_key(k), b.contains_key(k)]
            a2.contains_key(k) && b.contains_key(k) implies exists|i: int| 0 <= i < r1.len() && #[trigger] r1[i].index == k by {
            let i = choose|i: int| 0 <= i < v1.len() && #[trigger] v1[i].index == k;
            assert(i != 0);
            assert(r1[i - 1].index == k);
        }
        assert forall|k: usize|
            #![trigger a2.contains_key(k), b.contains_key(k)]
            a2.contains_key(k) && b.contains_key(k) implies exists|i: int| 0 <= i < r2.len() && #[trigger] r2[i].index == k by {
            let i = choose|i: int| 0 <= i < v2.len() && #[trigger] v2[i].index == k;
            assert(i != 0);
            assert(r2[i - 1].index == k);
        }
        assert forall|i: int| 0 <= i < r1.len() implies a2.contains_key(#[trigger] r1[i].index) by {
            assert(r1[i] == v1[i + 1]);
            assert(v1[0].index < v1[i + 1].index);
        }
        assert forall|i: int| 0 <= i < r2.len() implies a2.contains_key(#[trigger] r2[i].index) by {
            assert(r2[i] == v2[i + 1]);
            assert(v2[0].index < v2[i + 1].index);
        }
        law_changes_determined(r1, r2, a2, b);
        assert(v1 =~= seq![v1[0]] + r1);
        assert(v2 =~= seq![v2[0]] + r2);
    }
}

/// The keys of a map in iteration order strictly increase.
proof fn lemma_keys_increase(ks: Seq<usize>)
    requires
        vstd::std_specs::btree::increasing_seq(ks),
    ensures
        forall|i: int, j: int| 0 <= i < j < ks.len() ==> ks[i] < ks[j],
{
    broadcast use vstd::laws_cmp::group_laws_cmp;

    assert forall|i: int, j: int| 0 <= i < j < ks.len() implies ks[i] < ks[j] by {
        assert(vstd::std_specs::cmp::OrdSpec::cmp_spec(&ks[i], &ks[j]) is Less);
    }
}

/// Core indices (`usize`) are ordered as a `BTreeMap` needs for its lookups.
spec fn index_ordered() -> bool {
    vstd::laws_cmp::obeys_cmp::<usize>()
}

proof fn lemma_index_order()
    ensures
        index_ordered(),
{
    broadcast use vstd::laws_cmp::group_laws_cmp;

}

/// The changes of the cores between two readings of `/proc/stat`.
pub fn core_changes(a: &BTreeMap<usize, (u64, u64)>, b: &BTreeMap<usize, (u64, u64)>) -> (v: Vec<CoreSample>)
    ensures
        changes_between(v@, a@, b@),
{
    broadcast use vstd::std_specs::btree::group_btree_axioms;

    let mut v: Vec<CoreSample> = Vec::new();
    let iter = a.iter();
    let ghost r = iter.remaining();
    let ghost ks = r.map_values(|p: (&usize, &(u64, u64))| *p.0);
    proof {
        lemma_keys_increase(ks);
        lemma_index_order();
    }
    for kv in it: iter
        invariant
            it.seq() == r,
            ks == r.map_values(|p: (&usize, &(u64, u64))| *p.0),
            forall|i: int, j: int| 0 <= i < j < ks.len() ==> ks[i] < ks[j],
            index_ordered(),
            forall|m: int|
                #![trigger r[m]]
                0 <= m < r.len() ==> a@.contains_key(*r[m].0) && a@[*r[m].0] == *r[m].1,
            forall|i: int, j: int| 0 <= i < j < v@.len() ==> v@[i].index < v@[j].index,
            forall|i: int, m: int|
                #![trigger v@[i], ks[m]]
                0 <= i < v@.len() && it.index() <= m < ks.len() ==> v@[i].index < ks[m],
            forall|m: int|
                #![trigger ks[m]]
                0 <= m < it.index() && b@.contains_key(ks[m]) ==> exists|i: int|
                    0 <= i < v@.len() && #[trigger] v@[i].index == ks[m],
            forall|i: int|
                #![trigger v@[i]]
                0 <= i < v@.len() ==> {
                    &&& a@.contains_key(v@[i].index)
                    &&& b@.contains_key(v@[i].index)
                    &&& v@[i].busy_and_total == core_change(a@[v@[i].index], b@[v@[i].index])
                },
    {
        let (k, e1) = kv;
        let ghost m0 = it.index() as int;
        let ghost v_old = v@;
        match b.get(k) {
            Some(e2) => {
                let dt = e2.1.saturating_sub(e1.1);
                let bt = if dt > 0 {
                    Some((dt.saturating_sub(e2.0.saturating_sub(e1.0)), dt))
                } else {
                    None
                };
                assert(ks[m0] == *k);
                assert forall|i: int| 0 <= i < v@.len() implies v@[i].index < *k by {
                    assert(v@[i].index < ks[m0]);
                }
                v.push(CoreSample { index: *k, busy_and_total: bt });
                assert(ks[m0] == v@[v@.len() - 1].index);
            },
            None => {
                assert(!b@.contains_key(*k));
                assert(ks[m0] == *k);
            },
        }
        assert forall|m: int| 0 <= m <= m0 && b@.contains_key(ks[m]) implies exists|i: int|
            0 <= i < v@.len() && #[trigger] v@[i].index == ks[m] by {
            if m < m0 {
                let i = choose|i: int| 0 <= i < v_old.len() && #[trigger] v_old[i].index == ks[m];
                assert(v@[i] == v_old[i]);
            } else {
                assert(v@[v@.len() - 1].index == ks[m]);
            }
        }
    }
    proof {
        assert forall|k: usize|
            #![trigger a@.contains_key(k), b@.contains_key(k)]
            a@.contains_key(k) && b@.contains_key(k) implies exists|i: int|
                0 <= i < v@.len() && #[trigger] v@[i].index == k by {
            assert(r.contains((&k, &a@[k])));
            let m = choose|m: int| 0 <= m < r.len() && r[m] == (&k, &a@[k]);
            assert(ks[m] == k);
        }
    }
    v
}

} // verus!
