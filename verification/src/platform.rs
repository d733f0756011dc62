use vstd::prelude::*;

use crate::text::{
    chars_equal, chars_of, contains, contains_chars, lines, lines_of, string_from_chars,
    to_lowercase, unicode_lowercase, views, words, words_of,
};

verus! {

// ---------------------------------------------------------------------------
// Session detection
// ---------------------------------------------------------------------------

/// Wayland session, given the lower-cased session type: it is `wayland`, or
/// `WAYLAND_DISPLAY` is set.
pub open spec fn wayland_session_lower(session_lower: Seq<char>, wayland_display_set: bool) -> bool {
    session_lower == "wayland"@ || wayland_display_set
}

/// Wayland session: `XDG_SESSION_TYPE` lower-cased is `wayland`, or
/// `WAYLAND_DISPLAY` is set.
pub open spec fn wayland_session(session_type: Seq<char>, wayland_display_set: bool) -> bool {
    wayland_session_lower(unicode_lowercase(session_type), wayland_display_set)
}

/// Whether the session runs under a Wayland compositor, given the
/// lower-cased value of `XDG_SESSION_TYPE` and whether `WAYLAND_DISPLAY` is
/// set.
pub fn wayland_session_from_lower(session_lower: &str, wayland_display_set: bool) -> (r: bool)
    ensures
        r == wayland_session_lower(session_lower@, wayland_display_set),
{
    let l = chars_of(session_lower);
    let w = chars_of("wayland");
    chars_equal(l.as_slice(), w.as_slice()) || wayland_display_set
}

/// Whether the session runs under a Wayland compositor, given the value of
/// `XDG_SESSION_TYPE` (empty when unset) and whether `WAYLAND_DISPLAY` is set.
pub fn is_wayland_session(session_type: &str, wayland_display_set: bool) -> (r: bool)
    ensures
        r == wayland_session(session_type@, wayland_display_set),
        vstd::utf8::is_ascii_chars(session_type@) ==> r == wayland_session_lower(
            crate::text::ascii_lowercase(session_type@),
            wayland_display_set,
        ),
{
    let lower = to_lowercase(session_type);
    wayland_session_from_lower(lower.as_str(), wayland_display_set)
}

/// Whether the platform is Wayland; the same test as `is_wayland_session`.
pub fn is_wayland(session_type: &str, wayland_display_set: bool) -> (r: bool)
    ensures
        r == wayland_session(session_type@, wayland_display_set),
{
    is_wayland_session(session_type, wayland_display_set)
}

/// X11 session, given the lower-cased session type and the values of
/// `DISPLAY` and `WAYLAND_DISPLAY`: the session type is `x11`, or a display is
/// set and no Wayland display is.
pub open spec fn x11_session_lower(
    session_lower: Seq<char>,
    display: Seq<char>,
    wayland_display: Seq<char>,
) -> bool {
    session_lower == "x11"@ || (display.len() > 0 && wayland_display.len() == 0)
}

/// Whether the session is X11, given the lower-cased value of
/// `XDG_SESSION_TYPE` and the values of `DISPLAY` and `WAYLAND_DISPLAY`
/// (each empty when unset).
pub fn x11_session_from_lower(session_lower: &str, display: &str, wayland_display: &str) -> (r:
    bool)
    ensures
        r == x11_session_lower(session_lower@, display@, wayland_display@),
{
    let l = chars_of(session_lower);
    let x = chars_of("x11");
    if chars_equal(l.as_slice(), x.as_slice()) {
        return true;
    }
    let d = chars_of(display);
    let w = chars_of(wayland_display);
    d.len() > 0 && w.len() == 0
}

/// Whether the session is X11, given the values of `XDG_SESSION_TYPE`,
/// `DISPLAY` and `WAYLAND_DISPLAY` (each empty when unset): the session type
/// lower-cased is `x11`, or a display is set and no Wayland display is.
pub fn is_x11(session_type: &str, display: &str, wayland_display: &str) -> (r: bool)
    ensures
        r == x11_session_lower(unicode_lowercase(session_type@), display@, wayland_display@),
        vstd::utf8::is_ascii_chars(session_type@) ==> r == x11_session_lower(
            crate::text::ascii_lowercase(session_type@),
            display@,
            wayland_display@,
        ),
{
    let lower = to_lowercase(session_type);
    x11_session_from_lower(lower.as_str(), display, wayland_display)
}

/// An environment variable to set.
pub struct EnvAssignment {
    pub name: String,
    pub value: String,
}

/// The environment setting that adapts the process to a Wayland session:
/// `WINIT_UNIX_BACKEND=wayland,x11` when the session is Wayland and the
/// variable is not set already; nothing otherwise.
pub fn setup_wayland_env(session_type: &str, wayland_display_set: bool, winit_backend_set: bool) -> (r:
    Option<EnvAssignment>)
    ensures
        r is Some <==> wayland_session(session_type@, wayland_display_set) && !winit_backend_set,
        r matches Some(a) ==> a.name@ == "WINIT_UNIX_BACKEND"@ && a.value@ == "wayland,x11"@,
{
    if is_wayland_session(session_type, wayland_display_set) && !winit_backend_set {
        Some(
            EnvAssignment {
                name: "WINIT_UNIX_BACKEND".to_owned(),
                value: "wayland,x11".to_owned(),
            },
        )
    } else {
        None
    }
}

/// Platform set-up at start-up: on Wayland, the setting of
/// `setup_wayland_env`; nothing otherwise.
pub fn init_linux_platform(session_type: &str, wayland_display_set: bool, winit_backend_set: bool) -> (r:
    Option<EnvAssignment>)
    ensures
        r is Some <==> wayland_session(session_type@, wayland_display_set) && !winit_backend_set,
        r matches Some(a) ==> a.name@ == "WINIT_UNIX_BACKEND"@ && a.value@ == "wayland,x11"@,
{
    if is_wayland(session_type, wayland_display_set) {
        setup_wayland_env(session_type, wayland_display_set, winit_backend_set)
    } else {
        None
    }
}

// ---------------------------------------------------------------------------
// Display geometry
// ---------------------------------------------------------------------------

/// Screen size assumed when the display cannot be queried.
pub const DEFAULT_SCREEN_WIDTH: u32 = 2560;

/// Screen size assumed when the display cannot be queried.
pub const DEFAULT_SCREEN_HEIGHT: u32 = 1440;

/// The screen resolution to use for a reported width and height: the
/// reported one when both are positive, the default otherwise.
pub fn resolution_or_default(width: i32, height: i32) -> (r: (u32, u32))
    ensures
        width > 0 && height > 0 ==> r == (width as u32, height as u32),
        !(width > 0 && height > 0) ==> r == (DEFAULT_SCREEN_WIDTH, DEFAULT_SCREEN_HEIGHT),
{
    if width > 0 && height > 0 {
        (width as u32, height as u32)
    } else {
        (DEFAULT_SCREEN_WIDTH, DEFAULT_SCREEN_HEIGHT)
    }
}

/// Refresh rate in Hz assumed when none can be read.
pub const DEFAULT_REFRESH_RATE_HZ: u32 = 180;

/// An `xrandr` mode field that marks the active mode: it ends in `*` or `*+`.
pub open spec fn is_active_mode(w: Seq<char>) -> bool {
    (w.len() >= 1 && w.last() == '*') || (w.len() >= 2 && w[w.len() - 2] == '*' && w.last()
        == '+')
}

/// A mark that `xrandr` appends to a mode's rate: `*` (current) or `+`
/// (preferred).
pub open spec fn is_rate_mark(c: char) -> bool {
    c == '*' || c == '+'
}

/// The rate text of an active mode field: the field without its whole
/// trailing run of `*` and `+` marks (so `143.97*+` gives `143.97`).
pub open spec fn mode_rate_text(w: Seq<char>) -> Seq<char>
    decreases w.len(),
{
    if w.len() > 0 && is_rate_mark(w.last()) {
        mode_rate_text(w.drop_last())
    } else {
        w
    }
}

/// The rate text of an active mode field.
fn mode_rate_chars(w: &[char]) -> (r: Vec<char>)
    ensures
        r@ == mode_rate_text(w@),
{
    let n = w.len();
    let mut j: usize = n;
    assert(w@.take(n as int) =~= w@);
    while j > 0 && (w[j - 1] == '*' || w[j - 1] == '+')
        invariant
            j <= n == w@.len(),
            mode_rate_text(w@) == mode_rate_text(w@.take(j as int)),
        decreases j,
    {
        assert(w@.take(j as int).drop_last() =~= w@.take(j - 1));
        j = j - 1;
    }
    let mut r: Vec<char> = Vec::new();
    for k in 0..j
        invariant
            j <= n == w@.len(),
            r@ == w@.take(k as int),
    {
        r.push(w[k]);
        assert(w@.take(k + 1) =~= w@.take(k as int).push(w@[k as int]));
    }
    r
}

/// The rate texts of the active mode fields among `ws`, in order.
pub open spec fn active_rates(ws: Seq<Seq<char>>) -> Seq<Seq<char>>
    decreases ws.len(),
{
    if ws.len() == 0 {
        Seq::empty()
    } else if is_active_mode(ws.last()) {
        active_rates(ws.drop_last()).push(mode_rate_text(ws.last()))
    } else {
        active_rates(ws.drop_last())
    }
}

/// The rate texts of one `xrandr` line: none unless the line holds a `*`.
pub open spec fn line_rates(line: Seq<char>) -> Seq<Seq<char>> {
    if contains(line, seq!['*']) {
        active_rates(words(line))
    } else {
        Seq::empty()
    }
}

/// The rate texts of all lines, in order.
pub open spec fn rates_of_lines(ls: Seq<Seq<char>>) -> Seq<Seq<char>>
    decreases ls.len(),
{
    if ls.len() == 0 {
        Seq::empty()
    } else {
        rates_of_lines(ls.drop_last()) + line_rates(ls.last())
    }
}

/// The candidate refresh-rate texts in `xrandr` output, in the order in which
/// they are tried: the first that reads as a positive number is the rate.
pub open spec fn refresh_rate_candidates_of(text: Seq<char>) -> Seq<Seq<char>> {
    rates_of_lines(lines(text))
}

/// The rate texts of one line.
fn line_rate_texts(line: &[char]) -> (r: Vec<Vec<char>>)
    ensures
        views(r@) == line_rates(line@),
{
    let star: Vec<char> = vec!['*'];
    assert(star@ =~= seq!['*']);
    let mut r: Vec<Vec<char>> = Vec::new();
    if !contains_chars(line, star.as_slice()) {
        assert(views(r@) =~= Seq::<Seq<char>>::empty());
        return r;
    }
    let ws = words_of(line);
    let ghost wv = views(ws@);
    assert(wv.take(0) =~= Seq::<Seq<char>>::empty());
    assert(views(r@) =~= Seq::<Seq<char>>::empty());
    for i in 0..ws.len()
        invariant
            wv == views(ws@),
            wv.len() == ws@.len(),
            views(r@) == active_rates(wv.take(i as int)),
    {
        let w = &ws[i];
        assert(w@ == wv[i as int]);
        assert(wv.take(i + 1).drop_last() =~= wv.take(i as int));
        assert(wv.take(i + 1).last() == wv[i as int]);
        let n = w.len();
        let marked = (n >= 1 && w[n - 1] == '*') || (n >= 2 && w[n - 2] == '*' && w[n - 1] == '+');
        if marked {
            let b = mode_rate_chars(w.as_slice());
            let ghost before = views(r@);
            let ghost bv = b@;
            r.push(b);
            assert(views(r@) =~= before.push(bv));
        }
    }
    assert(wv.take(wv.len() as int) =~= wv);
    r
}

/// The candidate refresh-rate texts in `xrandr` output, in order.
pub fn refresh_rate_candidates(text: &str) -> (r: Vec<String>)
    ensures
        r@.map_values(|s: String| s@) == refresh_rate_candidates_of(text@),
{
    let cs = chars_of(text);
    let ls = lines_of(cs.as_slice());
    let ghost lv = views(ls@);
    let mut r: Vec<String> = Vec::new();
    assert(lv.take(0) =~= Seq::<Seq<char>>::empty());
    assert(r@.map_values(|s: String| s@) =~= Seq::<Seq<char>>::empty());
    for i in 0..ls.len()
        invariant
            lv == views(ls@),
            lv == lines(cs@),
            cs@ == text@,
            lv.len() == ls@.len(),
            r@.map_values(|s: String| s@) == rates_of_lines(lv.take(i as int)),
    {
        assert(ls@[i as int]@ == lv[i as int]);
        assert(lv.take(i + 1).drop_last() =~= lv.take(i as int));
        assert(lv.take(i + 1).last() == lv[i as int]);
        let found = line_rate_texts(ls[i].as_slice());
        let ghost fv = views(found@);
        let ghost before = r@.map_values(|s: String| s@);
        for k in 0..found.len()
            invariant
                fv == views(found@),
                fv.len() == found@.len(),
                r@.map_values(|s: String| s@) == before + fv.take(k as int),
        {
            let ghost prev = r@.map_values(|s: String| s@);
            let s = string_from_chars(found[k].as_slice());
            let ghost sv = s@;
            r.push(s);
            assert(r@.map_values(|s: String| s@) =~= prev.push(sv));
            assert(fv.take(k + 1) =~= fv.take(k as int).push(fv[k as int]));
        }
        assert(fv.take(fv.len() as int) =~= fv);
    }
    assert(lv.take(lv.len() as int) =~= lv);
    r
}

// ---------------------------------------------------------------------------
// Window search
// ---------------------------------------------------------------------------

/// A window of the X11 window tree: its id, its name if it has one, and its
/// child windows in stacking order.
pub struct WindowNode {
    pub id: u64,
    pub name: Option<String>,
    pub children: Vec<WindowNode>,
}

/// The first window, in depth-first pre-order, whose name holds `target`.
pub open spec fn window_match(n: WindowNode, target: Seq<char>) -> Option<u64>
    decreases n, 1nat,
{
    match n.name {
        Some(s) => if contains(s@, target) {
            Some(n.id)
        } else {
            children_match(n.children@, target)
        },
        None => children_match(n.children@, target),
    }
}

/// The first match among sibling windows and their subtrees, in order.
pub open spec fn children_match(cs: Seq<WindowNode>, target: Seq<char>) -> Option<u64>
    decreases cs, 0nat,
{
    if cs.len() == 0 {
        None
    } else {
        match window_match(cs[0], target) {
            Some(w) => Some(w),
            None => children_match(cs.subrange(1, cs.len() as int), target),
        }
    }
}

/// Window `id` is `n` or lies below `n`, and its name holds `target`.
pub open spec fn window_found(n: WindowNode, target: Seq<char>, id: u64) -> bool
    decreases n, 1nat,
{
    ||| (n.id == id && n.name is Some && contains(n.name->0@, target))
    ||| found_among(n.children@, target, id)
}

/// Window `id` is one of `cs` or lies below one of them, and its name holds
/// `target`.
pub open spec fn found_among(cs: Seq<WindowNode>, target: Seq<char>, id: u64) -> bool
    decreases cs, 0nat,
{
    if cs.len() == 0 {
        false
    } else {
        window_found(cs[0], target, id) || found_among(cs.subrange(1, cs.len() as int), target, id)
    }
}

/// The first window, in depth-first pre-order, whose name holds `target`.
fn find_node(n: &WindowNode, target: &[char]) -> (r: Option<u64>)
    ensures
        r == window_match(*n, target@),
    decreases n,
{
    match &n.name {
        Some(name) => {
            let cs = chars_of(name.as_str());
            if contains_chars(cs.as_slice(), target) {
                return Some(n.id);
            }
        },
        None => {},
    }
    let len = n.children.len();
    let ghost kids = n.children@;
    assert(kids.subrange(0, len as int) =~= kids);
    let mut i: usize = 0;
    while i < len
        invariant
            kids == n.children@,
            len == kids.len(),
            i <= len,
            window_match(*n, target@) == children_match(kids.subrange(i as int, len as int), target@),
        decreases len - i,
    {
        let ghost rest = kids.subrange(i as int, len as int);
        assert(rest[0] == kids[i as int]);
        assert(rest.subrange(1, rest.len() as int) =~= kids.subrange(i + 1, len as int));
        assert(decreases_to!(*n => n.children));
        assert(decreases_to!(n.children => n.children@));
        assert(decreases_to!(n.children@ => n.children@[i as int]));
        let found = find_node(&n.children[i], target);
        if found.is_some() {
            return found;
        }
        i = i + 1;
    }
    None
}

/// The id of the first window, in depth-first pre-order from `root`, whose
/// name holds `target`; `None` when no name does.
pub fn find_window_by_title(root: &WindowNode, target: &str) -> (r: Option<u64>)
    ensures
        r == window_match(*root, target@),
{
    let t = chars_of(target);
    find_node(root, t.as_slice())
}


// ---------------------------------------------------------------------------
// Laws
// ---------------------------------------------------------------------------

/// Law: whatever the session type, a display with no Wayland display makes
/// the session X11; so does the session type `x11`; nothing else does.
pub proof fn law_x11_session(session_lower: Seq<char>, display: Seq<char>, wayland_display: Seq<char>)
    ensures
        display.len() > 0 && wayland_display.len() == 0 ==> x11_session_lower(
            session_lower,
            display,
            wayland_display,
        ),
        session_lower == seq!['x', '1', '1'] ==> x11_session_lower(
            session_lower,
            display,
            wayland_display,
        ),
        session_lower != seq!['x', '1', '1'] && (display.len() == 0 || wayland_display.len() > 0)
            ==> !x11_session_lower(session_lower, display, wayland_display),
{
    reveal_strlit("x11");
    assert("x11"@ =~= seq!['x', '1', '1']);
}

/// Law: a set Wayland display makes the session Wayland whatever its type;
/// so does the session type `wayland`; nothing else does.
pub proof fn law_wayland_session(session_lower: Seq<char>, wayland_display_set: bool)
    ensures
        wayland_display_set ==> wayland_session_lower(session_lower, wayland_display_set),
        session_lower == seq!['w', 'a', 'y', 'l', 'a', 'n', 'd'] ==> wayland_session_lower(
            session_lower,
            wayland_display_set,
        ),
        session_lower != seq!['w', 'a', 'y', 'l', 'a', 'n', 'd'] && !wayland_display_set
            ==> !wayland_session_lower(session_lower, wayland_display_set),
{
    reveal_strlit("wayland");
    assert("wayland"@ =~= seq!['w', 'a', 'y', 'l', 'a', 'n', 'd']);
}

/// Law: the rate text of a field is the field without its trailing marks:
/// for a text `r` that does not end in a mark, `r` followed by any run of
/// `*` and `+` gives back `r`.
pub proof fn law_mode_rate_text(r: Seq<char>, marks: Seq<char>)
    requires
        r.len() == 0 || !is_rate_mark(r.last()),
        forall|i: int| 0 <= i < marks.len() ==> #[trigger] marks[i] == '*' || marks[i] == '+',
    ensures
        mode_rate_text(r + marks) == r,
    decreases marks.len(),
{
    if marks.len() == 0 {
        assert(r + marks =~= r);
    } else {
        assert((r + marks).drop_last() =~= r + marks.drop_last());
        assert((r + marks).last() == marks.last());
        law_mode_rate_text(r, marks.drop_last());
    }
}

/// Law: within a line, the rates keep the order of the fields: the rates of
/// `x + y` are those of `x` followed by those of `y`.
pub proof fn law_active_rates_concat(x: Seq<Seq<char>>, y: Seq<Seq<char>>)
    ensures
        active_rates(x + y) == active_rates(x) + active_rates(y),
    decreases y.len(),
{
    if y.len() == 0 {
        assert(x + y =~= x);
        assert(active_rates(x) + active_rates(y) =~= active_rates(x));
    } else {
        assert((x + y).drop_last() =~= x + y.drop_last());
        assert((x + y).last() == y.last());
        law_active_rates_concat(x, y.drop_last());
        if is_active_mode(y.last()) {
            assert((active_rates(x) + active_rates(y.drop_last())).push(mode_rate_text(y.last()))
                =~= active_rates(x) + active_rates(y.drop_last()).push(mode_rate_text(y.last())));
        }
    }
}

/// Law: one field gives its rate text exactly when it marks the active mode
/// (it ends in `*` or `*+`).
pub proof fn law_active_rates_single(w: Seq<char>)
    ensures
        active_rates(seq![w]) == (if is_active_mode(w) {
            seq![mode_rate_text(w)]
        } else {
            Seq::<Seq<char>>::empty()
        }),
{
    assert(seq![w].drop_last() =~= Seq::<Seq<char>>::empty());
    assert(seq![w].last() == w);
    assert(active_rates(Seq::<Seq<char>>::empty()) == Seq::<Seq<char>>::empty());
    assert(Seq::<Seq<char>>::empty().push(mode_rate_text(w)) =~= seq![mode_rate_text(w)]);
}

/// The rates of lines keep the order of the lines.
proof fn lemma_rates_of_lines_concat(x: Seq<Seq<char>>, y: Seq<Seq<char>>)
    ensures
        rates_of_lines(x + y) == rates_of_lines(x) + rates_of_lines(y),
    decreases y.len(),
{
    if y.len() == 0 {
        assert(x + y =~= x);
        assert(rates_of_lines(x) + rates_of_lines(y) =~= rates_of_lines(x));
    } else {
        assert((x + y).drop_last() =~= x + y.drop_last());
        assert((x + y).last() == y.last());
        lemma_rates_of_lines_concat(x, y.drop_last());
        assert(rates_of_lines(x) + rates_of_lines(y.drop_last()) + line_rates(y.last())
            =~= rates_of_lines(x) + (rates_of_lines(y.drop_last()) + line_rates(y.last())));
    }
}

/// Law: the candidates keep the order of the text: the candidates of `a + b`,
/// where `a` ends in a newline, are the candidates of `a` followed by those of
/// `b` (so the first candidate comes from the first line with an active
/// mode).
pub proof fn law_candidates_concat(a: Seq<char>, b: Seq<char>)
    requires
        a.len() > 0,
        a.last() == '\n',
    ensures
        refresh_rate_candidates_of(a + b) == refresh_rate_candidates_of(a)
            + refresh_rate_candidates_of(b),
{
    crate::text::law_lines_concat(a, b);
    lemma_rates_of_lines_concat(lines(a), lines(b));
}

/// Law: a single line (ended by a newline) gives the rates of its own active
/// mode fields, and none unless it holds a `*`.
pub proof fn law_candidates_single_line(l: Seq<char>)
    requires
        forall|i: int| 0 <= i < l.len() ==> l[i] != '\n',
    ensures
        refresh_rate_candidates_of(l.push('\n')) == line_rates(crate::text::strip_cr(l)),
{
    crate::text::law_lines_single(l);
    let ls = seq![crate::text::strip_cr(l)];
    assert(ls.drop_last() =~= Seq::<Seq<char>>::empty());
    assert(ls.last() == crate::text::strip_cr(l));
    assert(rates_of_lines(Seq::<Seq<char>>::empty()) == Seq::<Seq<char>>::empty());
    assert(Seq::<Seq<char>>::empty() + line_rates(crate::text::strip_cr(l)) =~= line_rates(
        crate::text::strip_cr(l),
    ));
    assert(rates_of_lines(ls) =~= line_rates(crate::text::strip_cr(l)));
}

/// Law: a window whose name holds the target at any position is found when
/// it is reached: `window_match` gives its own id.
pub proof fn law_window_name_match(n: WindowNode, target: Seq<char>, i: int)
    requires
        n.name is Some,
        0 <= i,
        i + target.len() <= n.name->0@.len(),
        n.name->0@.subrange(i, i + target.len()) == target,
    ensures
        window_match(n, target) == Some(n.id),
{
    crate::text::law_contains_any_position(n.name->0@, target, i);
}

/// Law: a window whose name does not hold the target (or that has no name)
/// gives the first match among its children, in order: the first child's
/// subtree before the later ones.
pub proof fn law_window_search_order(n: WindowNode, target: Seq<char>)
    requires
        n.name is None || !contains(n.name->0@, target),
    ensures
        window_match(n, target) == children_match(n.children@, target),
        n.children@.len() > 0 ==> (window_match(n.children@[0], target) is Some
            ==> window_match(n, target) == window_match(n.children@[0], target)),
        n.children@.len() == 0 ==> window_match(n, target) is None,
{
}

/// Law: a found window is the node itself or lies below it, and its name holds
/// the target.
pub proof fn law_window_match_sound(n: WindowNode, target: Seq<char>)
    ensures
        window_match(n, target) is Some ==> window_found(n, target, window_match(n, target)->0),
    decreases n, 1nat,
{
    lemma_children_match_sound(n.children@, target);
}

/// A match among siblings lies in one of their subtrees.
proof fn lemma_children_match_sound(cs: Seq<WindowNode>, target: Seq<char>)
    ensures
        children_match(cs, target) is Some ==> found_among(cs, target, children_match(cs, target)->0),
    decreases cs, 0nat,
{
    if cs.len() > 0 {
        law_window_match_sound(cs[0], target);
        lemma_children_match_sound(cs.subrange(1, cs.len() as int), target);
    }
}

} // verus!
