//! Line-oriented state-diagram parser.
//!
//! The recognized line grammar, stated directly by the spec functions below:
//! an *arrow* is a run of dashes ending in `>`. A line holding an arrow whose
//! left side ends in `[*]` declares a start point; one whose right side
//! begins with `[*]` declares an end point; and one of the shape
//! `FROM --> TO : EVENT` declares a transition. Names are runs of non-space
//! characters (the destination name additionally stops at the `:`
//! separator); anything else on the line is ignored.

use vstd::prelude::*;

verus! {

/// Whitespace, as the grammar understands it.
pub open spec fn is_ws(c: char) -> bool {
    c == ' ' || c == '\t' || c == '\n' || c == '\r' || c == '\u{b}' || c == '\u{c}'
}

/// First position at or after `i` holding a non-space character, or the end.
pub open spec fn skip_ws(s: Seq<char>, i: int) -> int
    decreases s.len() - i,
    when 0 <= i <= s.len()
{
    if i == s.len() || !is_ws(s[i]) {
        i
    } else {
        skip_ws(s, i + 1)
    }
}

/// First position at or after `i` holding a space, or the end: the end of the
/// name starting at `i`.
pub open spec fn token_end(s: Seq<char>, i: int) -> int
    decreases s.len() - i,
    when 0 <= i <= s.len()
{
    if i == s.len() || is_ws(s[i]) {
        i
    } else {
        token_end(s, i + 1)
    }
}

/// Like `token_end`, but a destination name also stops at the `:` separator.
pub open spec fn to_end(s: Seq<char>, i: int) -> int
    decreases s.len() - i,
    when 0 <= i <= s.len()
{
    if i == s.len() || is_ws(s[i]) || s[i] == ':' {
        i
    } else {
        to_end(s, i + 1)
    }
}

/// Start of the name that ends at `i`: scans left over non-space characters.
pub open spec fn token_start(s: Seq<char>, i: int) -> int
    decreases i,
    when 0 <= i <= s.len()
{
    if i == 0 || is_ws(s[i - 1]) {
        i
    } else {
        token_start(s, i - 1)
    }
}

/// Position left of `i` after stepping over whitespace.
pub open spec fn strip_ws_left(s: Seq<char>, i: int) -> int
    decreases i,
    when 0 <= i <= s.len()
{
    if i == 0 || !is_ws(s[i - 1]) {
        i
    } else {
        strip_ws_left(s, i - 1)
    }
}

/// Start of the dash run that ends at `i`.
pub open spec fn dash_start(s: Seq<char>, i: int) -> int
    decreases i,
    when 0 <= i <= s.len()
{
    if i == 0 || s[i - 1] != '-' {
        i
    } else {
        dash_start(s, i - 1)
    }
}

/// An arrow head: a dash directly followed by `>`.
pub open spec fn is_arrow_at(s: Seq<char>, q: int) -> bool {
    q + 2 <= s.len() && s[q] == '-' && s[q + 1] == '>'
}

/// End of the content left of the arrow at `q` (whitespace stepped over).
pub open spec fn left_end(s: Seq<char>, q: int) -> int {
    strip_ws_left(s, dash_start(s, q))
}

/// Begin of the content right of the arrow at `q` (whitespace stepped over).
pub open spec fn right_begin(s: Seq<char>, q: int) -> int {
    skip_ws(s, q + 2)
}

/// The arrow at `q` declares a start point: `[*]` stands left of it and a
/// name follows it.
pub open spec fn is_start_at(s: Seq<char>, q: int) -> bool {
    let l = left_end(s, q);
    &&& l >= 3
    &&& s[l - 3] == '['
    &&& s[l - 2] == '*'
    &&& s[l - 1] == ']'
    &&& right_begin(s, q) < s.len()
}

/// Bounds of the start-point name right of the arrow at `q`.
pub open spec fn start_bounds(s: Seq<char>, q: int) -> (int, int) {
    let r = right_begin(s, q);
    (r, token_end(s, r))
}

/// The arrow at `q` declares an end point: a name stands left of it and
/// `[*]` follows it.
pub open spec fn is_end_at(s: Seq<char>, q: int) -> bool {
    let l = left_end(s, q);
    let r = right_begin(s, q);
    &&& token_start(s, l) < l
    &&& r + 3 <= s.len()
    &&& s[r] == '['
    &&& s[r + 1] == '*'
    &&& s[r + 2] == ']'
}

/// Bounds of the name left of the arrow at `q`.
pub open spec fn left_bounds(s: Seq<char>, q: int) -> (int, int) {
    let l = left_end(s, q);
    (token_start(s, l), l)
}

/// The arrow at `q` declares a transition: a source name on the left, then a
/// destination name, a `:` separator and an event name on the right.
pub open spec fn is_trans_at(s: Seq<char>, q: int) -> bool {
    let l = left_end(s, q);
    let r = right_begin(s, q);
    let te = to_end(s, r);
    let c = skip_ws(s, te);
    &&& token_start(s, l) < l
    &&& te > r
    &&& c < s.len()
    &&& s[c] == ':'
    &&& skip_ws(s, c + 1) < s.len()
}

/// Bounds of the destination name right of the arrow at `q`.
pub open spec fn to_bounds(s: Seq<char>, q: int) -> (int, int) {
    let r = right_begin(s, q);
    (r, to_end(s, r))
}

/// Bounds of the event name after the `:` separator of the arrow at `q`.
pub open spec fn event_bounds(s: Seq<char>, q: int) -> (int, int) {
    let te = to_end(s, right_begin(s, q));
    let c = skip_ws(s, te);
    let ev = skip_ws(s, c + 1);
    (ev, token_end(s, ev))
}

/// Leftmost arrow declaring a start point, scanning from `i`.
pub open spec fn find_start(s: Seq<char>, i: int) -> Option<int>
    decreases s.len() - i,
    when 0 <= i <= s.len()
{
    if i == s.len() {
        None
    } else if is_arrow_at(s, i) && is_start_at(s, i) {
        Some(i)
    } else {
        find_start(s, i + 1)
    }
}

/// Leftmost arrow declaring an end point, scanning from `i`.
pub open spec fn find_end(s: Seq<char>, i: int) -> Option<int>
    decreases s.len() - i,
    when 0 <= i <= s.len()
{
    if i == s.len() {
        None
    } else if is_arrow_at(s, i) && is_end_at(s, i) {
        Some(i)
    } else {
        find_end(s, i + 1)
    }
}

/// Leftmost arrow declaring a transition, scanning from `i`.
pub open spec fn find_trans(s: Seq<char>, i: int) -> Option<int>
    decreases s.len() - i,
    when 0 <= i <= s.len()
{
    if i == s.len() {
        None
    } else if is_arrow_at(s, i) && is_trans_at(s, i) {
        Some(i)
    } else {
        find_trans(s, i + 1)
    }
}

/// What one line of diagram text declares.
pub enum LineFact {
    StartPoint { state: Seq<char> },
    EndPoint { state: Seq<char> },
    Arrow { from: Seq<char>, event: Seq<char>, to: Seq<char> },
    Nothing,
}

/// The fact a line declares, trying the start-point form first, then the
/// end-point form, then the transition form.
pub open spec fn line_fact(s: Seq<char>) -> LineFact {
    match find_start(s, 0) {
        Some(q) => LineFact::StartPoint {
            state: s.subrange(start_bounds(s, q).0, start_bounds(s, q).1),
        },
        None => match find_end(s, 0) {
            Some(q) => LineFact::EndPoint {
                state: s.subrange(left_bounds(s, q).0, left_bounds(s, q).1),
            },
            None => match find_trans(s, 0) {
                Some(q) => LineFact::Arrow {
                    from: s.subrange(left_bounds(s, q).0, left_bounds(s, q).1),
                    event: s.subrange(event_bounds(s, q).0, event_bounds(s, q).1),
                    to: s.subrange(to_bounds(s, q).0, to_bounds(s, q).1),
                },
                None => LineFact::Nothing,
            },
        },
    }
}

/// A name list seen as a set kept in first-insertion order.
pub open spec fn add_name(names: Seq<Seq<char>>, n: Seq<char>) -> Seq<Seq<char>> {
    if names.contains(n) {
        names
    } else {
        names.push(n)
    }
}

/// Index of the entry for key `k`, if any.
pub open spec fn find_key<V>(ts: Seq<(Seq<char>, V)>, k: Seq<char>) -> Option<int>
    decreases ts.len(),
{
    if ts.len() == 0 {
        None
    } else if ts[0].0 == k {
        Some(0)
    } else {
        match find_key(ts.drop_first(), k) {
            Some(j) => Some(j + 1),
            None => None,
        }
    }
}

pub proof fn lemma_find_key_first<V>(ts: Seq<(Seq<char>, V)>, k: Seq<char>, i: int)
    requires
        0 <= i < ts.len(),
        ts[i].0 == k,
        forall|j: int| 0 <= j < i ==> ts[j].0 != k,
    ensures
        find_key(ts, k) == Some(i),
    decreases i,
{
    if i > 0 {
        lemma_find_key_first(ts.drop_first(), k, i - 1);
    }
}

pub proof fn lemma_find_key_none<V>(ts: Seq<(Seq<char>, V)>, k: Seq<char>)
    requires
        forall|j: int| 0 <= j < ts.len() ==> ts[j].0 != k,
    ensures
        find_key(ts, k) == None::<int>,
    decreases ts.len(),
{
    if ts.len() > 0 {
        lemma_find_key_none(ts.drop_first(), k);
    }
}

/// The transition table after recording `FROM --EVENT--> TO`: the pair is
/// appended to the source state's list, which is created on first use.
pub open spec fn add_trans(
    ts: Seq<(Seq<char>, Seq<(Seq<char>, Seq<char>)>)>,
    from: Seq<char>,
    event: Seq<char>,
    to: Seq<char>,
) -> Seq<(Seq<char>, Seq<(Seq<char>, Seq<char>)>)> {
    match find_key(ts, from) {
        Some(i) => ts.update(i, (from, ts[i].1.push((event, to)))),
        None => ts.push((from, seq![(event, to)])),
    }
}

/// Mathematical view of the collected diagram facts.
#[verifier::ext_equal]
pub struct UmlView {
    pub states: Seq<Seq<char>>,
    pub events: Seq<Seq<char>>,
    pub transitions: Seq<(Seq<char>, Seq<(Seq<char>, Seq<char>)>)>,
}

/// No name occurs twice.
pub open spec fn no_dups(names: Seq<Seq<char>>) -> bool {
    forall|i: int, j: int| 0 <= i < j < names.len() ==> names[i] != names[j]
}

/// No source state owns two entries.
pub open spec fn trans_keys_unique(ts: Seq<(Seq<char>, Seq<(Seq<char>, Seq<char>)>)>) -> bool {
    forall|i: int, j: int| 0 <= i < j < ts.len() ==> ts[i].0 != ts[j].0
}

/// The facts one line adds to the collection.
pub open spec fn apply_line(u: UmlView, line: Seq<char>) -> UmlView {
    match line_fact(line) {
        LineFact::StartPoint { state } => UmlView {
            states: add_name(u.states, state),
            events: u.events,
            transitions: u.transitions,
        },
        LineFact::EndPoint { state } => UmlView {
            states: add_name(u.states, state),
            events: u.events,
            transitions: u.transitions,
        },
        LineFact::Arrow { from, event, to } => UmlView {
            states: add_name(add_name(u.states, from), to),
            events: add_name(u.events, event),
            transitions: add_trans(u.transitions, from, event, to),
        },
        LineFact::Nothing => u,
    }
}

/// The facts a whole diagram adds, line by line, first to last.
pub open spec fn parse_all(u: UmlView, lines: Seq<Seq<char>>) -> UmlView
    decreases lines.len(),
{
    if lines.len() == 0 {
        u
    } else {
        parse_all(apply_line(u, lines[0]), lines.drop_first())
    }
}

fn ws_char(c: char) -> (r: bool)
    ensures
        r == is_ws(c),
{
    c == ' ' || c == '\t' || c == '\n' || c == '\r' || c == '\u{b}' || c == '\u{c}'
}

fn skip_ws_x(line: &str, n: usize, i: usize) -> (r: usize)
    requires
        n == line@.len(),
        i <= n,
    ensures
        r == skip_ws(line@, i as int),
        i <= r <= n,
{
    let mut j: usize = i;
    while j < n && ws_char(line.get_char(j))
        invariant
            n == line@.len(),
            i <= j <= n,
            skip_ws(line@, i as int) == skip_ws(line@, j as int),
        decreases n - j,
    {
        j += 1;
    }
    j
}

fn token_end_x(line: &str, n: usize, i: usize) -> (r: usize)
    requires
        n == line@.len(),
        i <= n,
    ensures
        r == token_end(line@, i as int),
        i <= r <= n,
{
    let mut j: usize = i;
    while j < n && !ws_char(line.get_char(j))
        invariant
            n == line@.len(),
            i <= j <= n,
            token_end(line@, i as int) == token_end(line@, j as int),
        decreases n - j,
    {
        j += 1;
    }
    j
}

fn to_end_x(line: &str, n: usize, i: usize) -> (r: usize)
    requires
        n == line@.len(),
        i <= n,
    ensures
        r == to_end(line@, i as int),
        i <= r <= n,
{
    let mut j: usize = i;
    while j < n && !ws_char(line.get_char(j)) && line.get_char(j) != ':'
        invariant
            n == line@.len(),
            i <= j <= n,
            to_end(line@, i as int) == to_end(line@, j as int),
        decreases n - j,
    {
        j += 1;
    }
    j
}

fn token_start_x(line: &str, n: usize, i: usize) -> (r: usize)
    requires
        n == line@.len(),
        i <= n,
    ensures
        r == token_start(line@, i as int),
        r <= i,
{
    let mut j: usize = i;
    while j > 0 && !ws_char(line.get_char(j - 1))
        invariant
            n == line@.len(),
            j <= i <= n,
            token_start(line@, i as int) == token_start(line@, j as int),
        decreases j,
    {
        j -= 1;
    }
    j
}

fn strip_ws_left_x(line: &str, n: usize, i: usize) -> (r: usize)
    requires
        n == line@.len(),
        i <= n,
    ensures
        r == strip_ws_left(line@, i as int),
        r <= i,
{
    let mut j: usize = i;
    while j > 0 && ws_char(line.get_char(j - 1))
        invariant
            n == line@.len(),
            j <= i <= n,
            strip_ws_left(line@, i as int) == strip_ws_left(line@, j as int),
        decreases j,
    {
        j -= 1;
    }
    j
}

fn dash_start_x(line: &str, n: usize, i: usize) -> (r: usize)
    requires
        n == line@.len(),
        i <= n,
    ensures
        r == dash_start(line@, i as int),
        r <= i,
{
    let mut j: usize = i;
    while j > 0 && line.get_char(j - 1) == '-'
        invariant
            n == line@.len(),
            j <= i <= n,
            dash_start(line@, i as int) == dash_start(line@, j as int),
        decreases j,
    {
        j -= 1;
    }
    j
}

/// Whether the arrow at `q` declares a start point; `q` must hold an arrow.
fn start_at_x(line: &str, n: usize, q: usize) -> (r: bool)
    requires
        n == line@.len(),
        q + 2 <= n,
    ensures
        r == is_start_at(line@, q as int),
{
    let l = strip_ws_left_x(line, n, dash_start_x(line, n, q));
    if l < 3 {
        return false;
    }
    if !(line.get_char(l - 3) == '[' && line.get_char(l - 2) == '*' && line.get_char(l - 1) == ']')
    {
        return false;
    }
    let r = skip_ws_x(line, n, q + 2);
    r < n
}

/// Whether the arrow at `q` declares an end point; `q` must hold an arrow.
fn end_at_x(line: &str, n: usize, q: usize) -> (r: bool)
    requires
        n == line@.len(),
        q + 2 <= n,
    ensures
        r == is_end_at(line@, q as int),
{
    let l = strip_ws_left_x(line, n, dash_start_x(line, n, q));
    if token_start_x(line, n, l) >= l {
        return false;
    }
    let r = skip_ws_x(line, n, q + 2);
    if n - r < 3 {
        return false;
    }
    line.get_char(r) == '[' && line.get_char(r + 1) == '*' && line.get_char(r + 2) == ']'
}

/// Whether the arrow at `q` declares a transition; `q` must hold an arrow.
fn trans_at_x(line: &str, n: usize, q: usize) -> (r: bool)
    requires
        n == line@.len(),
        q + 2 <= n,
    ensures
        r == is_trans_at(line@, q as int),
{
    let l = strip_ws_left_x(line, n, dash_start_x(line, n, q));
    if token_start_x(line, n, l) >= l {
        return false;
    }
    let rb = skip_ws_x(line, n, q + 2);
    let te = to_end_x(line, n, rb);
    if te <= rb {
        return false;
    }
    let c = skip_ws_x(line, n, te);
    if c >= n || line.get_char(c) != ':' {
        return false;
    }
    skip_ws_x(line, n, c + 1) < n
}

/// Bounds of the start-point name, at the leftmost arrow declaring one.
fn scan_start(line: &str, n: usize) -> (r: Option<(usize, usize)>)
    requires
        n == line@.len(),
    ensures
        match r {
            Some(b) => {
                &&& find_start(line@, 0) matches Some(q) && b.0 == start_bounds(line@, q).0 && b.1
                    == start_bounds(line@, q).1
                &&& b.0 <= b.1 <= n
            },
            None => find_start(line@, 0) == None::<int>,
        },
{
    let mut i: usize = 0;
    while i < n
        invariant
            n == line@.len(),
            i <= n,
            find_start(line@, 0) == find_start(line@, i as int),
        decreases n - i,
    {
        if i + 1 < n && line.get_char(i) == '-' && line.get_char(i + 1) == '>' {
            if start_at_x(line, n, i) {
                let a = skip_ws_x(line, n, i + 2);
                let b = token_end_x(line, n, a);
                return Some((a, b));
            }
        }
        proof {
            assert(!(is_arrow_at(line@, i as int) && is_start_at(line@, i as int)));
        }
        i += 1;
    }
    None
}

/// Bounds of the end-point name, at the leftmost arrow declaring one.
fn scan_end(line: &str, n: usize) -> (r: Option<(usize, usize)>)
    requires
        n == line@.len(),
    ensures
        match r {
            Some(b) => {
                &&& find_end(line@, 0) matches Some(q) && b.0 == left_bounds(line@, q).0 && b.1
                    == left_bounds(line@, q).1
                &&& b.0 <= b.1 <= n
            },
            None => find_end(line@, 0) == None::<int>,
        },
{
    let mut i: usize = 0;
    while i < n
        invariant
            n == line@.len(),
            i <= n,
            find_end(line@, 0) == find_end(line@, i as int),
        decreases n - i,
    {
        if i + 1 < n && line.get_char(i) == '-' && line.get_char(i + 1) == '>' {
            if end_at_x(line, n, i) {
                let l = strip_ws_left_x(line, n, dash_start_x(line, n, i));
                let a = token_start_x(line, n, l);
                return Some((a, l));
            }
        }
        proof {
            assert(!(is_arrow_at(line@, i as int) && is_end_at(line@, i as int)));
        }
        i += 1;
    }
    None
}

/// Bounds of source, destination and event names, at the leftmost arrow
/// declaring a transition.
fn scan_trans(line: &str, n: usize) -> (r: Option<
    ((usize, usize), (usize, usize), (usize, usize)),
>)
    requires
        n == line@.len(),
    ensures
        match r {
            Some(b) => {
                &&& find_trans(line@, 0) matches Some(q) && b.0.0 == left_bounds(line@, q).0
                    && b.0.1 == left_bounds(line@, q).1 && b.1.0 == to_bounds(line@, q).0 && b.1.1
                    == to_bounds(line@, q).1 && b.2.0 == event_bounds(line@, q).0 && b.2.1
                    == event_bounds(line@, q).1
                &&& b.0.0 <= b.0.1 <= n
                &&& b.1.0 <= b.1.1 <= n
                &&& b.2.0 <= b.2.1 <= n
            },
            None => find_trans(line@, 0) == None::<int>,
        },
{
    let mut i: usize = 0;
    while i < n
        invariant
            n == line@.len(),
            i <= n,
            find_trans(line@, 0) == find_trans(line@, i as int),
        decreases n - i,
    {
        if i + 1 < n && line.get_char(i) == '-' && line.get_char(i + 1) == '>' {
            if trans_at_x(line, n, i) {
                let l = strip_ws_left_x(line, n, dash_start_x(line, n, i));
                let fa = token_start_x(line, n, l);
                let ta = skip_ws_x(line, n, i + 2);
                let tb = to_end_x(line, n, ta);
                let c = skip_ws_x(line, n, tb);
                let ea = skip_ws_x(line, n, c + 1);
                let eb = token_end_x(line, n, ea);
                return Some(((fa, l), (ta, tb), (ea, eb)));
            }
        }
        proof {
            assert(!(is_arrow_at(line@, i as int) && is_trans_at(line@, i as int)));
        }
        i += 1;
    }
    None
}

/// The facts extracted from a state diagram: its states, its events, and for
/// each source state the list of `(event, destination)` pairs, in the order
/// the diagram declared them.
pub struct Uml {
    pub states: Vec<String>,
    pub events: Vec<String>,
    pub transitions: Vec<(String, Vec<(String, String)>)>,
}

impl View for Uml {
    type V = UmlView;

    open spec fn view(&self) -> UmlView {
        UmlView {
            states: self.states@.map_values(|s: String| s@),
            events: self.events@.map_values(|s: String| s@),
            transitions: self.transitions@.map_values(
                |p: (String, Vec<(String, String)>)|
                    (p.0@, p.1@.map_values(|q: (String, String)| (q.0@, q.1@))),
            ),
        }
    }
}

impl Default for Uml {
    /// An empty collection of facts.
    fn default() -> (r: Self)
        ensures
            r@.states == Seq::<Seq<char>>::empty(),
            r@.events == Seq::<Seq<char>>::empty(),
            r@.transitions == Seq::<(Seq<char>, Seq<(Seq<char>, Seq<char>)>)>::empty(),
            r.wf(),
    {
        let u = Uml { states: Vec::new(), events: Vec::new(), transitions: Vec::new() };
        proof {
            assert(u@.states =~= Seq::<Seq<char>>::empty());
            assert(u@.events =~= Seq::<Seq<char>>::empty());
            assert(u@.transitions =~= Seq::<(Seq<char>, Seq<(Seq<char>, Seq<char>)>)>::empty());
        }
        u
    }
}

impl Uml {
    /// Well-formedness: states and events are duplicate-free, and each source
    /// state owns at most one transition list.
    pub open spec fn wf(&self) -> bool {
        &&& no_dups(self@.states)
        &&& no_dups(self@.events)
        &&& trans_keys_unique(self@.transitions)
    }

    /// Record a state name, once.
    pub fn add_state(&mut self, state: &String)
        requires
            old(self).wf(),
        ensures
            final(self).wf(),
            final(self)@.states == add_name(old(self)@.states, state@),
            final(self)@.events == old(self)@.events,
            final(self)@.transitions == old(self)@.transitions,
    {
        let n = self.states.len();
        let mut i: usize = 0;
        while i < n
            invariant
                self == old(self),
                old(self).wf(),
                n == self.states@.len(),
                i <= n,
                forall|j: int| 0 <= j < i ==> self.states@[j]@ != state@,
            decreases n - i,
        {
            if self.states[i].eq(state) {
                proof {
                    assert(self@.states[i as int] == state@);
                    assert(self@.states.contains(state@));
                }
                return ;
            }
            i += 1;
        }
        proof {
            assert(forall|j: int| 0 <= j < self@.states.len() ==> self@.states[j] != state@);
            assert(!self@.states.contains(state@));
        }
        self.states.push(state.clone());
        proof {
            assert(self@.states =~= add_name(old(self)@.states, state@));
        }
    }

    /// Record an event name, once.
    fn add_event(&mut self, event: &String)
        requires
            old(self).wf(),
        ensures
            final(self).wf(),
            final(self)@.events == add_name(old(self)@.events, event@),
            final(self)@.states == old(self)@.states,
            final(self)@.transitions == old(self)@.transitions,
    {
        let n = self.events.len();
        let mut i: usize = 0;
        while i < n
            invariant
                self == old(self),
                old(self).wf(),
                n == self.events@.len(),
                i <= n,
                forall|j: int| 0 <= j < i ==> self.events@[j]@ != event@,
            decreases n - i,
        {
            if self.events[i].eq(event) {
                proof {
                    assert(self@.events[i as int] == event@);
                    assert(self@.events.contains(event@));
                }
                return ;
            }
            i += 1;
        }
        proof {
            assert(!self@.events.contains(event@));
        }
        self.events.push(event.clone());
        proof {
            assert(self@.events =~= add_name(old(self)@.events, event@));
        }
    }

    /// Record one transition under its source state, keeping declaration
    /// order within that state.
    pub fn add_transition(&mut self, from: &String, event: &String, to: &String)
        requires
            old(self).wf(),
        ensures
            final(self).wf(),
            final(self)@.transitions == add_trans(old(self)@.transitions, from@, event@, to@),
            final(self)@.states == old(self)@.states,
            final(self)@.events == old(self)@.events,
    {
        let n = self.transitions.len();
        let mut i: usize = 0;
        while i < n
            invariant
                self == old(self),
                old(self).wf(),
                n == self.transitions@.len(),
                i <= n,
                forall|j: int| 0 <= j < i ==> self.transitions@[j].0@ != from@,
            decreases n - i,
        {
            if self.transitions[i].0.eq(from) {
                proof {
                    assert(self@.transitions[i as int].0 == from@);
                    assert(forall|j: int| 0 <= j < i ==> self@.transitions[j].0 != from@);
                    lemma_find_key_first(self@.transitions, from@, i as int);
                }
                let ghost before = self@.transitions;
                let mut entry = self.transitions.remove(i);
                entry.1.push((event.clone(), to.clone()));
                self.transitions.insert(i, entry);
                proof {
                    assert(self@.transitions =~~= before.update(
                        i as int,
                        (from@, before[i as int].1.push((event@, to@))),
                    ));
                    assert(self@.transitions =~~= add_trans(before, from@, event@, to@));
                    assert(forall|x: int|
                        0 <= x < before.len() ==> self@.transitions[x].0 == before[x].0);
                }
                return ;
            }
            i += 1;
        }
        proof {
            assert(forall|j: int|
                0 <= j < self@.transitions.len() ==> self@.transitions[j].0 != from@);
            lemma_find_key_none(self@.transitions, from@);
        }
        let ghost before = self@.transitions;
        let mut v: Vec<(String, String)> = Vec::new();
        v.push((event.clone(), to.clone()));
        self.transitions.push((from.clone(), v));
        proof {
            assert(self@.transitions =~~= before.push((from@, seq![(event@, to@)])));
            assert(self@.transitions =~~= add_trans(before, from@, event@, to@));
            assert(forall|x: int|
                0 <= x < before.len() ==> self@.transitions[x].0 == before[x].0);
            assert(self@.transitions[before.len() as int].0 == from@);
        }
    }

    /// Extract the facts one line declares and record them.
    pub fn parse_line(&mut self, line: &str)
        requires
            old(self).wf(),
        ensures
            final(self).wf(),
            final(self)@ == apply_line(old(self)@, line@),
    {
        let n = line.unicode_len();
        if let Some((a, b)) = scan_start(line, n) {
            let name = line.substring_char(a, b).to_owned();
            self.add_state(&name);
            proof {
                assert(self@ =~~= apply_line(old(self)@, line@));
            }
            return ;
        }
        if let Some((a, b)) = scan_end(line, n) {
            let name = line.substring_char(a, b).to_owned();
            self.add_state(&name);
            proof {
                assert(self@ =~~= apply_line(old(self)@, line@));
            }
            return ;
        }
        if let Some(bounds) = scan_trans(line, n) {
            let ((fa, fb), (ta, tb), (ea, eb)) = bounds;
            let from = line.substring_char(fa, fb).to_owned();
            let to = line.substring_char(ta, tb).to_owned();
            let event = line.substring_char(ea, eb).to_owned();
            self.add_state(&from);
            self.add_state(&to);
            self.add_event(&event);
            self.add_transition(&from, &event, &to);
            proof {
                assert(self@ =~~= apply_line(old(self)@, line@));
            }
            return ;
        }
        proof {
            assert(self@ =~~= apply_line(old(self)@, line@));
        }
    }

    /// Extract and record the facts of every line, first to last.
    pub fn parse(&mut self, lines: &Vec<String>)
        requires
            old(self).wf(),
        ensures
            final(self).wf(),
            final(self)@ == parse_all(old(self)@, lines@.map_values(|l: String| l@)),
    {
        let ghost all = lines@.map_values(|l: String| l@);
        proof {
            assert(all.skip(0) =~= all);
        }
        let n = lines.len();
        let mut i: usize = 0;
        while i < n
            invariant
                self.wf(),
                n == lines@.len(),
                i <= n,
                all == lines@.map_values(|l: String| l@),
                parse_all(old(self)@, all) == parse_all(self@, all.skip(i as int)),
            decreases n - i,
        {
            proof {
                assert(all.skip(i as int)[0] == all[i as int]);
                assert(all.skip(i as int).drop_first() =~= all.skip(i as int + 1));
            }
            self.parse_line(lines[i].as_str());
            i += 1;
        }
        proof {
            assert(all.skip(n as int) =~= Seq::<Seq<char>>::empty());
        }
    }
}

} // verus!
