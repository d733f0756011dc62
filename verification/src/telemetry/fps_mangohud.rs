use vstd::prelude::*;

use crate::text::{
    chars_of, contains, contains_chars, lemma_split_on_two, lines, lines_of, split_chars,
    split_on, string_from_chars, trim, trim_chars,
};

verus! {

/// Reads the frame rate and render latency that MangoHud writes.
pub struct MangoHudFpsReader {
    enabled: bool,
}

impl View for MangoHudFpsReader {
    type V = bool;

    /// Whether reading is enabled.
    closed spec fn view(&self) -> bool {
        self.enabled
    }
}

/// The files in which MangoHud may publish its frame timing, in the order in
/// which they are tried.
pub open spec fn mangohud_paths() -> Seq<Seq<char>> {
    seq!["/tmp/mangohud"@, "/tmp/mangoapp"@, "/tmp/mangohud_pipe"@]
}

/// The two comma-separated fields (frame rate, latency) of the last line of
/// `content`, trimmed of white space; `None` when there is no line or the
/// last one holds no comma.
pub open spec fn frame_fields_of(content: Seq<char>) -> Option<(Seq<char>, Seq<char>)> {
    let ls = lines(content);
    if ls.len() == 0 {
        None
    } else {
        let t = trim(ls.last());
        if contains(t, seq![',']) {
            let p = split_on(t, ',');
            Some((p[0], p[1]))
        } else {
            None
        }
    }
}

impl MangoHudFpsReader {
    /// A reader, enabled or not.
    pub fn new(enabled: bool) -> (r: Self)
        ensures
            r@ == enabled,
    {
        MangoHudFpsReader { enabled }
    }

    /// The files to look at, in order: none when reading is disabled.
    pub fn candidate_paths(&self) -> (r: Vec<&'static str>)
        ensures
            r@.map_values(|p: &str| p@) == (if self@ {
                mangohud_paths()
            } else {
                Seq::empty()
            }),
    {
        let mut r: Vec<&'static str> = Vec::new();
        if self.enabled {
            r.push("/tmp/mangohud");
            r.push("/tmp/mangoapp");
            r.push("/tmp/mangohud_pipe");
        }
        assert(r@.map_values(|p: &str| p@) =~= (if self@ {
            mangohud_paths()
        } else {
            Seq::empty()
        }));
        r
    }
}

/// The frame-rate and latency texts of a MangoHud file's content.
pub fn frame_fields(content: &str) -> (r: Option<(String, String)>)
    ensures
        match r {
            Some((a, b)) => frame_fields_of(content@) == Some((a@, b@)),
            None => frame_fields_of(content@) is None,
        },
{
    let cs = chars_of(content);
    let ls = lines_of(cs.as_slice());
    let n = ls.len();
    if n == 0 {
        return None;
    }
    assert(ls@[n - 1]@ == lines(content@).last());
    let t = trim_chars(ls[n - 1].as_slice());
    let comma: Vec<char> = vec![','];
    assert(comma@ =~= seq![',']);
    if !contains_chars(t.as_slice(), comma.as_slice()) {
        return None;
    }
    proof {
        let i = choose|i: int| crate::text::occurs_at(t@, seq![','], i);
        assert(t@.subrange(i, i + 1)[0] == t@[i]);
        lemma_split_on_two(t@, ',', i);
    }
    let parts = split_chars(t.as_slice(), ',');
    assert(parts@[0]@ == split_on(t@, ',')[0]);
    assert(parts@[1]@ == split_on(t@, ',')[1]);
    let a = string_from_chars(parts[0].as_slice());
    let b = string_from_chars(parts[1].as_slice());
    Some((a, b))
}

} // verus!
