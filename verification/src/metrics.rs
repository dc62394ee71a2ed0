//! The text side of reading performance counters: counter paths in the
//! form the counter API takes, the engine type named in a GPU counter
//! instance, and the error text for a failed counter call.
//!
//! The counter values themselves are floating point and are read and
//! aggregated by the caller.
use vstd::prelude::*;
use crate::text::{
    append_chars, append_str, chars_of, first_occurrence, occurs_at, hex_chars, hex_fixed, slice_chars,
    find_chars, string_from, string_of,
};

verus! {

// ---------------------------------------------------------------------------
// UTF-16
// ---------------------------------------------------------------------------

/// The UTF-16 code units of one character.
pub open spec fn utf16_units(c: char) -> Seq<u16> {
    let u = c as u32;
    if u < 0x10000 {
        seq![u as u16]
    } else {
        let v = (u - 0x10000) as int;
        seq![(0xd800 + v / 0x400) as u16, (0xdc00 + v % 0x400) as u16]
    }
}

/// The UTF-16 encoding of a character sequence, `str::encode_utf16`.
pub open spec fn utf16(s: Seq<char>) -> Seq<u16>
    decreases s.len(),
{
    if s.len() == 0 {
        seq![]
    } else {
        utf16(s.drop_last()) + utf16_units(s.last())
    }
}

/// `input` in UTF-16 with a terminating zero, as the wide-string APIs take
/// it.
pub fn to_wide(input: &str) -> (res: Vec<u16>)
    ensures
        res@ == utf16(input@).push(0u16),
{
    let v = chars_of(input);
    let mut res: Vec<u16> = Vec::new();
    let mut i: usize = 0;
    assert(v@.take(0) =~= Seq::<char>::empty());
    while i < v.len()
        invariant
            i <= v.len(),
            v@ == input@,
            res@ == utf16(v@.take(i as int)),
        decreases v.len() - i,
    {
        let c = v[i];
        let u = c as u32;
        let ghost before = res@;
        if u < 0x10000 {
            res.push(u as u16);
        } else {
            let w = u - 0x10000;
            assert(w < 0x100000) by {
                vstd::utf8::char_is_scalar(c);
            }
            res.push((0xd800 + w / 0x400) as u16);
            res.push((0xdc00 + w % 0x400) as u16);
        }
        assert(v@.take(i + 1).drop_last() =~= v@.take(i as int));
        assert(res@ =~= before + utf16_units(c));
        i = i + 1;
    }
    assert(v@.take(v.len() as int) =~= v@);
    res.push(0u16);
    res
}

// ---------------------------------------------------------------------------
// GPU engine instances
// ---------------------------------------------------------------------------

/// The engine type in a GPU counter instance name such as
/// `pid_1234_luid_0x0_0x0_phys_0_eng_0_engtype_3D`: the text after the first
/// `engtype_`, or `Unknown` where there is none.
pub open spec fn engine_type(instance: Seq<char>) -> Seq<char> {
    match first_occurrence(instance, "engtype_"@) {
        Some(p) => instance.skip(p + "engtype_"@.len()),
        None => "Unknown"@,
    }
}

/// The engine type that a GPU counter instance name ends with.
pub fn engine_type_of(instance: &str) -> (res: String)
    ensures
        res@ == engine_type(instance@),
{
    let v = chars_of(instance);
    let needle = chars_of("engtype_");
    match find_chars(&v, &needle) {
        Some(p) => {
            let n = needle.len();
            assert(p + n <= v.len());
            let rest = slice_chars(&v, p + n, v.len());
            assert(rest@ =~= instance@.skip(p + "engtype_"@.len()));
            string_of(&rest)
        },
        None => string_from("Unknown"),
    }
}

// ---------------------------------------------------------------------------
// Status codes
// ---------------------------------------------------------------------------

/// The error text for a counter call `action` that returned `status`.
pub open spec fn status_message(status: u32, action: Seq<char>) -> Seq<char> {
    "failed to "@ + action + " (PDH status: 0x"@ + hex_fixed(status as nat, 8) + ")"@
}

/// Succeeds where `status` is 0, else names the action and the status in
/// eight upper-case hexadecimal digits.
pub fn ensure_ok(status: u32, action: &str) -> (res: Result<(), String>)
    ensures
        status == 0 ==> res is Ok,
        status != 0 ==> (res matches Err(e) && e@ == status_message(status, action@)),
{
    if status == 0 {
        return Ok(());
    }
    let mut msg = chars_of("failed to ");
    append_str(&mut msg, action);
    append_str(&mut msg, " (PDH status: 0x");
    let hex = hex_chars(status, 8);
    append_chars(&mut msg, &hex);
    append_str(&mut msg, ")");
    Err(string_of(&msg))
}

// ---------------------------------------------------------------------------
// Counter paths
// ---------------------------------------------------------------------------

/// The counter for the utilisation of all processors together.
pub const CPU_COUNTER_PATH: &'static str = "\\Processor Information(_Total)\\% Processor Utility";

/// The counter for the utilisation of every GPU engine of every process.
pub const GPU_COUNTER_PATH: &'static str = "\\GPU Engine(*)\\Utilization Percentage";

// ---------------------------------------------------------------------------
// Grouping GPU counter instances by engine type
// ---------------------------------------------------------------------------

/// GPU counter instances grouped by engine type: the distinct engine types,
/// and for each instance the index of its type.
pub struct EngineGroups {
    pub types: Vec<String>,
    pub group_of: Vec<usize>,
}

/// `groups` sorts the instance names `names` by engine type: one entry per
/// distinct type, each used by some instance, each instance pointing at its
/// own type.
pub open spec fn groups_engine_types(names: Seq<Seq<char>>, types: Seq<Seq<char>>, group_of: Seq<usize>) -> bool {
    &&& group_of.len() == names.len()
    &&& forall|i: int|
        0 <= i < names.len() ==> (#[trigger] group_of[i]) < types.len() && types[group_of[i]
            as int] == engine_type(names[i])
    &&& forall|j: int| 0 <= j < types.len() ==> #[trigger] group_used(group_of, j)
    &&& forall|a: int, b: int| 0 <= a < b < types.len() ==> types[a] != types[b]
}

/// Some instance points at the group `j`.
pub open spec fn group_used(group_of: Seq<usize>, j: int) -> bool {
    exists|i: int| 0 <= i < group_of.len() && #[trigger] group_of[i] == j
}

pub open spec fn string_views(v: Seq<String>) -> Seq<Seq<char>> {
    v.map_values(|s: String| s@)
}

fn position_of(types: &Vec<String>, t: &String) -> (res: Option<usize>)
    ensures
        match res {
            Some(k) => k < types.len() && types@[k as int]@ == t@,
            None => forall|m: int| 0 <= m < types.len() ==> types@[m]@ != t@,
        },
{
    let mut k: usize = 0;
    while k < types.len()
        invariant
            k <= types.len(),
            forall|m: int| 0 <= m < k ==> types@[m]@ != t@,
        decreases types.len() - k,
    {
        if crate::text::str_equal(types[k].as_str(), t.as_str()) {
            return Some(k);
        }
        k = k + 1;
    }
    None
}

/// Groups GPU counter instances by the engine type in their names, so that
/// the utilisation can be summed per engine type.
pub fn group_by_engine_type(instances: &Vec<String>) -> (res: EngineGroups)
    ensures
        groups_engine_types(string_views(instances@), string_views(res.types@), res.group_of@),
{
    let ghost names = string_views(instances@);
    let mut types: Vec<String> = Vec::new();
    let mut group_of: Vec<usize> = Vec::new();
    let mut i: usize = 0;
    assert(string_views(types@) =~= Seq::<Seq<char>>::empty());
    while i < instances.len()
        invariant
            i <= instances.len(),
            names == string_views(instances@),
            groups_engine_types(names.take(i as int), string_views(types@), group_of@),
        decreases instances.len() - i,
    {
        let t = engine_type_of(instances[i].as_str());
        let ghost tv = string_views(types@);
        let ghost before_groups = group_of@;
        let ghost before_names = names.take(i as int);
        let ghost now = names.take(i + 1);
        assert(now =~= before_names.push(names[i as int]));
        assert(names[i as int] == instances@[i as int]@);
        match position_of(&types, &t) {
            Some(k) => {
                group_of.push(k);
                proof {
                    assert(tv[k as int] == t@);
                    assert forall|x: int| 0 <= x < now.len() implies (#[trigger] group_of@[x])
                        < tv.len() && tv[group_of@[x] as int] == engine_type(now[x]) by {
                        if x < before_names.len() {
                            assert(group_of@[x] == before_groups[x]);
                        }
                    }
                    assert forall|j: int| 0 <= j < tv.len() implies #[trigger] group_used(
                        group_of@,
                        j,
                    ) by {
                        assert(group_used(before_groups, j));
                        let x = choose|x: int|
                            0 <= x < before_groups.len() && #[trigger] before_groups[x] == j;
                        assert(group_of@[x] == j);
                    }
                }
            },
            None => {
                let pos = types.len();
                types.push(t);
                group_of.push(pos);
                proof {
                    let tv2 = string_views(types@);
                    assert(tv2 =~= tv.push(engine_type(names[i as int])));
                    assert forall|x: int| 0 <= x < now.len() implies (#[trigger] group_of@[x])
                        < tv2.len() && tv2[group_of@[x] as int] == engine_type(now[x]) by {
                        if x < before_names.len() {
                            assert(group_of@[x] == before_groups[x]);
                        }
                    }
                    assert forall|j: int| 0 <= j < tv2.len() implies #[trigger] group_used(
                        group_of@,
                        j,
                    ) by {
                        if j < tv.len() {
                            assert(group_used(before_groups, j));
                            let x = choose|x: int|
                                0 <= x < before_groups.len() && #[trigger] before_groups[x] == j;
                            assert(group_of@[x] == j);
                        } else {
                            assert(group_of@[i as int] == j);
                        }
                    }
                    assert forall|a: int, b: int| 0 <= a < b < tv2.len() implies tv2[a]
                        != tv2[b] by {
                        if b == tv.len() {
                            assert(tv[a] == types@[a]@);
                        }
                    }
                }
            },
        }
        i = i + 1;
    }
    assert(names.take(instances.len() as int) =~= names);
    EngineGroups { types, group_of }
}

// ---------------------------------------------------------------------------
// Laws
// ---------------------------------------------------------------------------

proof fn lemma_least_occurrence(s: Seq<char>, needle: Seq<char>, i: int)
    requires
        occurs_at(s, needle, i),
    ensures
        exists|k: int|
            occurs_at(s, needle, k) && forall|m: int| 0 <= m < k ==> !occurs_at(s, needle, m),
    decreases i,
{
    if exists|m: int| 0 <= m < i && occurs_at(s, needle, m) {
        let m = choose|m: int| 0 <= m < i && occurs_at(s, needle, m);
        lemma_least_occurrence(s, needle, m);
    } else {
        assert(forall|m: int| 0 <= m < i ==> !occurs_at(s, needle, m));
    }
}

/// The engine type is everything after the first `engtype_`: the name is
/// the text before it, `engtype_`, and the engine type, in that order, and
/// no earlier `engtype_` occurs. Without `engtype_` the type is `Unknown`.
pub proof fn law_engine_type_is_whole_suffix(instance: Seq<char>)
    ensures
        first_occurrence(instance, "engtype_"@) matches Some(p) ==> instance == instance.take(p)
            + "engtype_"@ + engine_type(instance) && forall|m: int|
            0 <= m < p ==> !occurs_at(instance, "engtype_"@, m),
        first_occurrence(instance, "engtype_"@) is None ==> engine_type(instance) == "Unknown"@,
        (exists|i: int| occurs_at(instance, "engtype_"@, i)) ==> first_occurrence(
            instance,
            "engtype_"@,
        ) is Some,
{
    let needle = "engtype_"@;
    if exists|i: int| occurs_at(instance, needle, i) {
        let i = choose|i: int| occurs_at(instance, needle, i);
        lemma_least_occurrence(instance, needle, i);
        let p = first_occurrence(instance, needle)->0;
        assert(occurs_at(instance, needle, p));
        assert(instance =~= instance.take(p) + needle + instance.skip(p + needle.len())) by {
            assert(instance.subrange(p, p + needle.len()) == needle);
        }
    }
}

/// ASCII text is widened unit by unit: each character below 0x80 becomes
/// the code unit of the same value, and the text keeps its length.
pub proof fn law_wide_ascii(s: Seq<char>)
    requires
        forall|i: int| 0 <= i < s.len() ==> (#[trigger] s[i] as u32) < 0x80,
    ensures
        utf16(s).len() == s.len(),
        forall|i: int| 0 <= i < s.len() ==> #[trigger] utf16(s)[i] == (s[i] as u32) as u16,
    decreases s.len(),
{
    if s.len() > 0 {
        let t = s.drop_last();
        assert forall|i: int| 0 <= i < t.len() implies (#[trigger] t[i] as u32) < 0x80 by {
            assert(t[i] == s[i]);
        }
        law_wide_ascii(t);
        assert(s[s.len() - 1] == s.last());
    }
}

/// A status code appears as its eight upper-case hexadecimal digits, most
/// significant first.
pub proof fn law_status_digits(status: u32)
    ensures
        hex_fixed(status as nat, 8).len() == 8,
        hex_fixed(status as nat, 8)[7] == crate::text::hex_char((status % 16) as nat),
        hex_fixed(status as nat, 8)[6] == crate::text::hex_char(((status / 16) % 16) as nat),
        hex_fixed(status as nat, 8)[0] == crate::text::hex_char(((status / 0x10000000) % 16) as nat),
{
    reveal_with_fuel(hex_fixed, 9);
}

/// A character beyond the basic plane becomes a high surrogate followed by
/// a low surrogate, which together give back its code point; any other
/// character is one code unit of its own value.
pub proof fn law_surrogate_pairs(c: char)
    ensures
        (c as u32) < 0x10000 ==> utf16_units(c) == seq![(c as u32) as u16],
        (c as u32) >= 0x10000 ==> ({
            let u = utf16_units(c);
            &&& u.len() == 2
            &&& 0xd800 <= u[0] <= 0xdbff
            &&& 0xdc00 <= u[1] <= 0xdfff
            &&& 0x10000 + (u[0] - 0xd800) * 0x400 + (u[1] - 0xdc00) == c as u32
        }),
{
    vstd::utf8::char_is_scalar(c);
}

} // verus!
