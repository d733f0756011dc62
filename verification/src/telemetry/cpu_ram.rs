use vstd::prelude::*;

use crate::text::{
    ascii_lowercase, chars_of, contains, contains_chars, to_lowercase, unicode_lowercase,
};
use vstd::utf8::is_ascii_chars;

verus! {

/// A lower-cased sensor label that names the CPU: it holds `cpu`,
/// `k10temp`, `coretemp` or `package`.
pub open spec fn cpu_temp_label_lower(l: Seq<char>) -> bool {
    ||| contains(l, "cpu"@)
    ||| contains(l, "k10temp"@)
    ||| contains(l, "coretemp"@)
    ||| contains(l, "package"@)
}

/// A temperature sensor label that names the CPU: lower-cased, it holds
/// `cpu`, `k10temp`, `coretemp` or `package`.
pub open spec fn cpu_temp_label(label: Seq<char>) -> bool {
    cpu_temp_label_lower(unicode_lowercase(label))
}

/// Whether a sensor whose lower-cased label is `label_lower` reports the
/// CPU temperature.
pub fn cpu_label_from_lower(label_lower: &str) -> (r: bool)
    ensures
        r == cpu_temp_label_lower(label_lower@),
{
    let l = chars_of(label_lower);
    let a = chars_of("cpu");
    let b = chars_of("k10temp");
    let c = chars_of("coretemp");
    let d = chars_of("package");
    contains_chars(l.as_slice(), a.as_slice()) || contains_chars(l.as_slice(), b.as_slice())
        || contains_chars(l.as_slice(), c.as_slice()) || contains_chars(l.as_slice(), d.as_slice())
}

/// Whether a sensor with this label reports the CPU temperature.
pub fn is_cpu_temp_label(label: &str) -> (r: bool)
    ensures
        r == cpu_temp_label(label@),
        is_ascii_chars(label@) ==> r == cpu_temp_label_lower(ascii_lowercase(label@)),
{
    let lower = to_lowercase(label);
    cpu_label_from_lower(lower.as_str())
}

/// The sensor-name words that mark a CPU temperature sensor.
pub open spec fn cpu_label_word(p: Seq<char>) -> bool {
    ||| p == seq!['c', 'p', 'u']
    ||| p == seq!['k', '1', '0', 't', 'e', 'm', 'p']
    ||| p == seq!['c', 'o', 'r', 'e', 't', 'e', 'm', 'p']
    ||| p == seq!['p', 'a', 'c', 'k', 'a', 'g', 'e']
}

/// The literals in `cpu_temp_label_lower` are the four words.
proof fn lemma_cpu_words()
    ensures
        "cpu"@ == seq!['c', 'p', 'u'],
        "k10temp"@ == seq!['k', '1', '0', 't', 'e', 'm', 'p'],
        "coretemp"@ == seq!['c', 'o', 'r', 'e', 't', 'e', 'm', 'p'],
        "package"@ == seq!['p', 'a', 'c', 'k', 'a', 'g', 'e'],
{
    reveal_strlit("cpu");
    reveal_strlit("k10temp");
    reveal_strlit("coretemp");
    reveal_strlit("package");
    assert("cpu"@ =~= seq!['c', 'p', 'u']);
    assert("k10temp"@ =~= seq!['k', '1', '0', 't', 'e', 'm', 'p']);
    assert("coretemp"@ =~= seq!['c', 'o', 'r', 'e', 't', 'e', 'm', 'p']);
    assert("package"@ =~= seq!['p', 'a', 'c', 'k', 'a', 'g', 'e']);
}

/// Law: a lower-cased label that holds any one of `cpu`, `k10temp`,
/// `coretemp` or `package`, at any position, is a CPU temperature label.
pub proof fn law_cpu_label_word_suffices(l: Seq<char>, p: Seq<char>, i: int)
    requires
        cpu_label_word(p),
        0 <= i,
        i + p.len() <= l.len(),
        l.subrange(i, i + p.len()) == p,
    ensures
        cpu_temp_label_lower(l),
{
    lemma_cpu_words();
    crate::text::law_contains_any_position(l, p, i);
}

/// Law: a lower-cased label is a CPU temperature label only if it holds one of
/// those words somewhere.
pub proof fn law_cpu_label_needs_word(l: Seq<char>)
    requires
        cpu_temp_label_lower(l),
    ensures
        exists|p: Seq<char>, i: int|
            cpu_label_word(p) && 0 <= i && i + p.len() <= l.len() && #[trigger] l.subrange(
                i,
                i + p.len(),
            ) == p,
{
    lemma_cpu_words();
    let words = seq![
        seq!['c', 'p', 'u'],
        seq!['k', '1', '0', 't', 'e', 'm', 'p'],
        seq!['c', 'o', 'r', 'e', 't', 'e', 'm', 'p'],
        seq!['p', 'a', 'c', 'k', 'a', 'g', 'e'],
    ];
    let k: int = if contains(l, words[0]) {
        0
    } else if contains(l, words[1]) {
        1
    } else if contains(l, words[2]) {
        2
    } else {
        3
    };
    let p = words[k];
    assert(contains(l, p));
    assert(cpu_label_word(p));
    crate::text::law_contains_any_position(l, p, 0);
    let i = choose|j: int| 0 <= j && j + p.len() <= l.len() && #[trigger] l.subrange(j, j + p.len()) == p;
    assert(l.subrange(i, i + p.len()) == p);
}

} // verus!
