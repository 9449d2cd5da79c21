//! The text buffer behind an input field: lines of characters and a cursor.
use vstd::prelude::*;
use crate::geometry::Pos;
use vstd::string::StrSliceExecFns;

verus! {

/// The text that lines make when they are joined with line breaks.
pub open spec fn joined(t: Seq<Seq<char>>) -> Seq<char>
    decreases t.len(),
{
    if t.len() == 0 {
        Seq::empty()
    } else if t.len() == 1 {
        t[0]
    } else {
        joined(t.drop_last()) + seq!['\n'] + t.last()
    }
}

/// The lines of a text: the pieces between its line breaks.
pub open spec fn split_lines(s: Seq<char>) -> Seq<Seq<char>>
    decreases s.len(),
{
    if s.len() == 0 {
        seq![Seq::empty()]
    } else {
        let r = split_lines(s.drop_last());
        if s.last() == '\n' {
            r.push(Seq::empty())
        } else {
            r.update(r.len() - 1, r.last().push(s.last()))
        }
    }
}

/// The size of a text: its characters and one line end per line.
pub open spec fn total(t: Seq<Seq<char>>) -> int
    decreases t.len(),
{
    if t.len() == 0 {
        0
    } else {
        total(t.drop_last()) + t.last().len() + 1
    }
}

/// Lines that a buffer can hold: at least one, none with a line break, and
/// a size that a `usize` counts.
pub open spec fn valid_lines(t: Seq<Seq<char>>) -> bool {
    &&& t.len() >= 1
    &&& forall|i: int, j: int| 0 <= i < t.len() && 0 <= j < t[i].len() ==> t[i][j] != '\n'
    &&& total(t) <= usize::MAX
}

proof fn lemma_total_concat(a: Seq<Seq<char>>, b: Seq<Seq<char>>)
    ensures
        total(a + b) == total(a) + total(b),
    decreases b.len(),
{
    if b.len() > 0 {
        assert((a + b).drop_last() =~= a + b.drop_last());
        lemma_total_concat(a, b.drop_last());
    } else {
        assert(a + b =~= a);
    }
}

proof fn lemma_total_one(l: Seq<char>)
    ensures
        total(seq![l]) == l.len() + 1,
{
    assert(seq![l].drop_last() =~= Seq::<Seq<char>>::empty());
    assert(total(Seq::<Seq<char>>::empty()) == 0);
    assert(seq![l].last() == l);
}

/// A text is its lines before `i`, line `i`, and its lines after `i`.
proof fn lemma_total_split(t: Seq<Seq<char>>, i: int)
    requires
        0 <= i < t.len(),
    ensures
        total(t) == total(t.take(i)) + t[i].len() + 1 + total(t.skip(i + 1)),
        t[i].len() < total(t),
{
    assert(t =~= t.take(i) + seq![t[i]] + t.skip(i + 1));
    lemma_total_concat(t.take(i) + seq![t[i]], t.skip(i + 1));
    lemma_total_concat(t.take(i), seq![t[i]]);
    lemma_total_one(t[i]);
    lemma_total_nonneg(t.take(i));
    lemma_total_nonneg(t.skip(i + 1));
}

/// Valid lines number at most `usize::MAX`, and each is shorter than that.
pub proof fn lemma_line_count_fits(t: Seq<Seq<char>>)
    requires
        valid_lines(t),
    ensures
        t.len() <= usize::MAX,
        forall|i: int| 0 <= i < t.len() ==> t[i].len() < usize::MAX,
{
    lemma_total_nonneg(t);
    assert forall|i: int| 0 <= i < t.len() implies t[i].len() < usize::MAX by {
        lemma_total_split(t, i);
    }
}

proof fn lemma_total_nonneg(t: Seq<Seq<char>>)
    ensures
        total(t) >= t.len(),
    decreases t.len(),
{
    if t.len() > 0 {
        lemma_total_nonneg(t.drop_last());
    }
}

/// A buffer state: valid lines and a cursor on one of them, at most one
/// column past its end.
pub open spec fn valid_state(t: Seq<Seq<char>>, p: Pos) -> bool {
    &&& valid_lines(t)
    &&& p.y < t.len()
    &&& p.x <= t[p.y as int].len()
}

/// Splitting a text into lines and joining them again gives the text back.
pub proof fn lemma_split_join(s: Seq<char>)
    ensures
        split_lines(s).len() >= 1,
        joined(split_lines(s)) == s,
        forall|i: int, j: int|
            0 <= i < split_lines(s).len() && 0 <= j < split_lines(s)[i].len()
                ==> split_lines(s)[i][j] != '\n',
        total(split_lines(s)) == s.len() + 1,
    decreases s.len(),
{
    if s.len() == 0 {
        lemma_total_one(Seq::empty());
    } else {
        let p = s.drop_last();
        lemma_split_join(p);
        let r = split_lines(p);
        if s.last() == '\n' {
            assert(r.push(Seq::empty()).drop_last() =~= r);
            lemma_total_one(Seq::empty());
            lemma_total_concat(r, seq![Seq::<char>::empty()]);
            assert(r.push(Seq::empty()) =~= r + seq![Seq::<char>::empty()]);
            assert(joined(r.push(Seq::empty())) =~= s);
        } else {
            let k = r.len() - 1;
            let r2 = r.update(k, r.last().push(s.last()));
            assert(r2.drop_last() =~= r.drop_last());
            if r.len() == 1 {
                assert(joined(r2) =~= s);
            } else {
                assert(r2.drop_last() =~= r.drop_last());
                assert(r2.last() == r.last().push(s.last()));
                assert(joined(r) == joined(r.drop_last()) + seq!['\n'] + r.last());
                assert(s =~= p.push(s.last()));
                assert(joined(r2) =~= s);
            }
        }
    }
}

/// Line `y` broken in two at column `x`.
pub open spec fn broken_at(t: Seq<Seq<char>>, p: Pos) -> Seq<Seq<char>> {
    t.take(p.y as int) + seq![t[p.y as int].take(p.x as int), t[p.y as int].skip(p.x as int)] + t.skip(
        p.y + 1,
    )
}

/// Lines `i` and `i + 1` joined into one.
pub open spec fn merged_at(t: Seq<Seq<char>>, i: int) -> Seq<Seq<char>> {
    t.take(i) + seq![t[i] + t[i + 1]] + t.skip(i + 2)
}

/// The text and cursor after typing `c`: a line break breaks the line.
pub open spec fn typed(t: Seq<Seq<char>>, p: Pos, c: char) -> (Seq<Seq<char>>, Pos) {
    if c == '\n' {
        (broken_at(t, p), Pos { x: 0, y: (p.y + 1) as usize })
    } else {
        (t.update(p.y as int, t[p.y as int].insert(p.x as int, c)), Pos { x: (p.x + 1) as usize, y: p.y })
    }
}

/// The text and cursor after typing the characters of `s` in order.
pub open spec fn typed_all(t: Seq<Seq<char>>, p: Pos, s: Seq<char>) -> (Seq<Seq<char>>, Pos)
    decreases s.len(),
{
    if s.len() == 0 {
        (t, p)
    } else {
        let (t1, p1) = typed_all(t, p, s.drop_last());
        typed(t1, p1, s.last())
    }
}

/// The position `(x, y)` clamped into the text: onto its last line at most,
/// and onto the column just past that line's end at most.
pub open spec fn clamp_to(t: Seq<Seq<char>>, x: int, y: int) -> Pos {
    let cy = if y < t.len() { y } else { t.len() - 1 };
    let cx = if x <= t[cy].len() { x } else { t[cy].len() as int };
    Pos { x: cx as usize, y: cy as usize }
}

/// The cursor `p` clamped into the text.
pub open spec fn clamped_pos(t: Seq<Seq<char>>, p: Pos) -> Pos {
    clamp_to(t, p.x as int, p.y as int)
}

/// The cursor after moving one character left: to the end of the previous
/// line from a line start.
pub open spec fn left_of(t: Seq<Seq<char>>, p: Pos) -> Pos {
    if p.x > 0 {
        Pos { x: (p.x - 1) as usize, y: p.y }
    } else if p.y > 0 {
        Pos { x: t[p.y - 1].len() as usize, y: (p.y - 1) as usize }
    } else {
        p
    }
}

/// The cursor after moving one character right: to the start of the next
/// line from a line end.
pub open spec fn right_of(t: Seq<Seq<char>>, p: Pos) -> Pos {
    if p.x < t[p.y as int].len() {
        Pos { x: (p.x + 1) as usize, y: p.y }
    } else if p.y + 1 < t.len() {
        Pos { x: 0, y: (p.y + 1) as usize }
    } else {
        p
    }
}

/// The cursor on line `y`, in its column or at the end of a shorter line.
pub open spec fn on_line(t: Seq<Seq<char>>, p: Pos, y: int) -> Pos {
    Pos { x: if p.x <= t[y].len() { p.x } else { t[y].len() as usize }, y: y as usize }
}

/// The cursor after moving `n` lines up, stopping at the first line.
pub open spec fn lines_up(t: Seq<Seq<char>>, p: Pos, n: int) -> Pos {
    on_line(t, p, if n <= p.y { p.y - n } else { 0 })
}

/// The cursor after moving `n` lines down, stopping at the last line.
pub open spec fn lines_down(t: Seq<Seq<char>>, p: Pos, n: int) -> Pos {
    on_line(t, p, if p.y + n < t.len() { p.y + n } else { t.len() - 1 })
}

/// Text, cursor and whether anything changed, after deleting the character
/// before the cursor; at a line start the line joins the previous one.
pub open spec fn deleted_left(t: Seq<Seq<char>>, p: Pos) -> (Seq<Seq<char>>, Pos, bool) {
    if p.x > 0 {
        (t.update(p.y as int, t[p.y as int].remove(p.x - 1)), Pos { x: (p.x - 1) as usize, y: p.y }, true)
    } else if p.y > 0 {
        (merged_at(t, p.y - 1), Pos { x: t[p.y - 1].len() as usize, y: (p.y - 1) as usize }, true)
    } else {
        (t, p, false)
    }
}

/// Text, cursor and whether anything changed, after deleting the character
/// under the cursor; at a line end the next line joins this one.
pub open spec fn deleted_below(t: Seq<Seq<char>>, p: Pos) -> (Seq<Seq<char>>, Pos, bool) {
    if p.x < t[p.y as int].len() {
        (t.update(p.y as int, t[p.y as int].remove(p.x as int)), p, true)
    } else if p.y + 1 < t.len() {
        (merged_at(t, p.y as int), p, true)
    } else {
        (t, p, false)
    }
}

/// Whether `c` separates words.
pub open spec fn is_space(c: char) -> bool {
    c == ' ' || c == '\t'
}

/// Column `x` moved left over the separators just before it.
pub open spec fn skip_spaces_left(l: Seq<char>, x: int) -> int
    decreases x,
{
    if 0 < x <= l.len() && is_space(l[x - 1]) { skip_spaces_left(l, x - 1) } else { x }
}

/// Column `x` moved left over the word characters just before it.
pub open spec fn skip_word_left(l: Seq<char>, x: int) -> int
    decreases x,
{
    if 0 < x <= l.len() && !is_space(l[x - 1]) { skip_word_left(l, x - 1) } else { x }
}

/// Column `x` moved right over the separators at and after it.
pub open spec fn skip_spaces_right(l: Seq<char>, x: int) -> int
    decreases l.len() - x,
{
    if 0 <= x < l.len() && is_space(l[x]) { skip_spaces_right(l, x + 1) } else { x }
}

/// Column `x` moved right over the word characters at and after it.
pub open spec fn skip_word_right(l: Seq<char>, x: int) -> int
    decreases l.len() - x,
{
    if 0 <= x < l.len() && !is_space(l[x]) { skip_word_right(l, x + 1) } else { x }
}

/// The start of the word before column `x`, separators before `x` skipped.
pub open spec fn word_start(l: Seq<char>, x: int) -> int {
    skip_word_left(l, skip_spaces_left(l, x))
}

/// The end of the word after column `x`, separators after `x` skipped.
pub open spec fn word_end(l: Seq<char>, x: int) -> int {
    skip_word_right(l, skip_spaces_right(l, x))
}

/// The cursor after moving one word left: to the start of the word before
/// it, or to the end of the previous line from a line start.
pub open spec fn word_left_of(t: Seq<Seq<char>>, p: Pos) -> Pos {
    if p.x == 0 {
        left_of(t, p)
    } else {
        Pos { x: word_start(t[p.y as int], p.x as int) as usize, y: p.y }
    }
}

/// The cursor after moving one word right: to the end of the word after
/// it, or to the start of the next line from a line end.
pub open spec fn word_right_of(t: Seq<Seq<char>>, p: Pos) -> Pos {
    if p.x == t[p.y as int].len() {
        right_of(t, p)
    } else {
        Pos { x: word_end(t[p.y as int], p.x as int) as usize, y: p.y }
    }
}

/// Text, cursor and whether anything changed, after deleting back to the
/// start of the word before the cursor; at a line start as `deleted_left`.
pub open spec fn deleted_word_left(t: Seq<Seq<char>>, p: Pos) -> (Seq<Seq<char>>, Pos, bool) {
    if p.x == 0 {
        deleted_left(t, p)
    } else {
        let a = word_start(t[p.y as int], p.x as int);
        (
            t.update(p.y as int, t[p.y as int].take(a) + t[p.y as int].skip(p.x as int)),
            Pos { x: a as usize, y: p.y },
            true,
        )
    }
}

/// Text, cursor and whether anything changed, after deleting up to the end
/// of the word after the cursor; at a line end as `deleted_below`.
pub open spec fn deleted_word_right(t: Seq<Seq<char>>, p: Pos) -> (Seq<Seq<char>>, Pos, bool) {
    if p.x == t[p.y as int].len() {
        deleted_below(t, p)
    } else {
        let b = word_end(t[p.y as int], p.x as int);
        (t.update(p.y as int, t[p.y as int].take(p.x as int) + t[p.y as int].skip(b)), p, true)
    }
}

proof fn lemma_skip_left_bounds(l: Seq<char>, x: int)
    requires
        0 <= x <= l.len(),
    ensures
        0 <= skip_spaces_left(l, x) <= x,
        0 <= skip_word_left(l, x) <= x,
        0 <= word_start(l, x) <= x,
        x > 0 ==> word_start(l, x) < x,
    decreases x,
{
    if x > 0 {
        lemma_skip_left_bounds(l, x - 1);
        let s = skip_spaces_left(l, x);
        lemma_skip_word_left_bounds(l, s);
    }
}

proof fn lemma_skip_word_left_bounds(l: Seq<char>, x: int)
    requires
        0 <= x <= l.len(),
    ensures
        0 <= skip_word_left(l, x) <= x,
    decreases x,
{
    if x > 0 {
        lemma_skip_word_left_bounds(l, x - 1);
    }
}

proof fn lemma_skip_right_bounds(l: Seq<char>, x: int)
    requires
        0 <= x <= l.len(),
    ensures
        x <= skip_spaces_right(l, x) <= l.len(),
        x <= skip_word_right(l, x) <= l.len(),
    decreases l.len() - x,
{
    if x < l.len() {
        lemma_skip_right_bounds(l, x + 1);
    }
}

proof fn lemma_word_end_bounds(l: Seq<char>, x: int)
    requires
        0 <= x <= l.len(),
    ensures
        x <= word_end(l, x) <= l.len(),
        x < l.len() ==> x < word_end(l, x),
{
    lemma_skip_right_bounds(l, x);
    lemma_skip_right_bounds(l, skip_spaces_right(l, x));
    if x < l.len() {
        lemma_skip_right_bounds(l, x + 1);
    }
}

proof fn lemma_total_update(t: Seq<Seq<char>>, i: int, l: Seq<char>)
    requires
        0 <= i < t.len(),
    ensures
        total(t.update(i, l)) == total(t) - t[i].len() + l.len(),
{
    let u = t.update(i, l);
    lemma_total_split(t, i);
    lemma_total_split(u, i);
    assert(u.take(i) =~= t.take(i));
    assert(u.skip(i + 1) =~= t.skip(i + 1));
}

proof fn lemma_total_three(a: Seq<Seq<char>>, m: Seq<Seq<char>>, b: Seq<Seq<char>>)
    ensures
        total(a + m + b) == total(a) + total(m) + total(b),
{
    lemma_total_concat(a + m, b);
    lemma_total_concat(a, m);
}

proof fn lemma_total_two(l1: Seq<char>, l2: Seq<char>)
    ensures
        total(seq![l1, l2]) == l1.len() + l2.len() + 2,
{
    assert(seq![l1, l2] =~= seq![l1] + seq![l2]);
    lemma_total_concat(seq![l1], seq![l2]);
    lemma_total_one(l1);
    lemma_total_one(l2);
}

/// The characters of the string, in order.
fn chars_of(s: &str) -> (r: Vec<char>)
    ensures
        r@ == s@,
{
    let n = s.unicode_len();
    let mut r: Vec<char> = Vec::new();
    let mut i: usize = 0;
    while i < n
        invariant
            n == s@.len(),
            0 <= i <= n,
            r@ == s@.take(i as int),
        decreases n - i,
    {
        r.push(s.get_char(i));
        i = i + 1;
        proof {
            assert(r@ =~= s@.take(i as int));
        }
    }
    proof {
        assert(s@.take(n as int) =~= s@);
    }
    r
}

/// Relies on `String: FromIterator<char>`: the string made of these characters, in order.
#[verifier::external_body]
fn string_of(v: &Vec<char>) -> (r: String)
    ensures
        r@ == v@,
{
    v.iter().collect()
}

/// The lines of a buffer and its cursor.
pub struct InputFieldContent {
    lines: Vec<Vec<char>>,
    pos: Pos,
    /// The text's size, as `total` counts it.
    size: usize,
}

impl Default for InputFieldContent {
    /// An empty buffer: one empty line, the cursor at its start.
    fn default() -> (r: Self)
        ensures
            r.wf(),
            r.text() == seq![Seq::<char>::empty()],
            r.cursor() == (Pos { x: 0, y: 0 }),
    {
        Self::new()
    }
}

impl InputFieldContent {
    /// The lines, as sequences of characters.
    pub closed spec fn text(&self) -> Seq<Seq<char>> {
        self.lines@.map_values(|l: Vec<char>| l@)
    }

    pub closed spec fn cursor(&self) -> Pos {
        self.pos
    }

    /// Whether the recorded size is the text's.
    pub closed spec fn size_kept(&self) -> bool {
        self.size == total(self.text())
    }

    pub open spec fn wf(&self) -> bool {
        &&& valid_state(self.text(), self.cursor())
        &&& self.size_kept()
    }

    /// The text's size: its characters and one line end per line.
    pub fn size(&self) -> (r: usize)
        requires
            self.wf(),
        ensures
            r == total(self.text()),
    {
        self.size
    }

    /// The length of the cursor's line.
    pub open spec fn line_len(&self) -> int {
        self.text()[self.cursor().y as int].len() as int
    }

    /// The whole content, lines joined with line breaks.
    pub open spec fn content(&self) -> Seq<char> {
        joined(self.text())
    }

    /// An empty buffer: one empty line, the cursor at its start.
    pub fn new() -> (r: Self)
        ensures
            r.wf(),
            r.text() == seq![Seq::<char>::empty()],
            r.cursor() == (Pos { x: 0, y: 0 }),
    {
        let mut lines: Vec<Vec<char>> = Vec::new();
        lines.push(Vec::new());
        let r = InputFieldContent { lines, pos: Pos { x: 0, y: 0 }, size: 1 };
        assert(r.text() =~= seq![Seq::<char>::empty()]);
        proof {
            lemma_total_one(Seq::empty());
        }
        r
    }

    pub fn lines(&self) -> (r: &Vec<Vec<char>>)
        ensures
            r@.map_values(|l: Vec<char>| l@) == self.text(),
    {
        &self.lines
    }

    pub fn line_count(&self) -> (r: usize)
        ensures
            r == self.text().len(),
    {
        self.lines.len()
    }

    pub fn cursor_pos(&self) -> (r: Pos)
        ensures
            r == self.cursor(),
    {
        self.pos
    }

    /// The cursor's line.
    pub fn current_line(&self) -> (r: &Vec<char>)
        requires
            self.wf(),
        ensures
            r@ == self.text()[self.cursor().y as int],
    {
        &self.lines[self.pos.y]
    }

    /// The length of the cursor's line.
    pub fn current_line_len(&self) -> (r: usize)
        requires
            self.wf(),
        ensures
            r == self.line_len(),
            r < usize::MAX,
    {
        proof {
            lemma_total_split(self.text(), self.pos.y as int);
        }
        self.lines[self.pos.y].len()
    }

    /// Whether the buffer holds no character.
    pub fn is_empty(&self) -> (r: bool)
        requires
            self.wf(),
        ensures
            r == (self.content().len() == 0),
    {
        proof {
            self.lemma_content_len();
        }
        self.lines.len() == 1 && self.lines[0].len() == 0
    }

    proof fn lemma_content_len(&self)
        requires
            self.wf(),
        ensures
            self.content().len() == 0 <==> (self.text().len() == 1 && self.text()[0].len() == 0),
    {
        lemma_joined_len(self.text());
    }
    /// The lines of a text, built one character at a time.
    fn lines_of(chars: &Vec<char>) -> (r: Vec<Vec<char>>)
        requires
            chars@.len() < usize::MAX,
        ensures
            r@.map_values(|l: Vec<char>| l@) == split_lines(chars@),
    {
        let mut lines: Vec<Vec<char>> = Vec::new();
        lines.push(Vec::new());
        let mut i: usize = 0;
        proof {
            assert(chars@.take(0) =~= Seq::<char>::empty());
            assert(lines@.map_values(|l: Vec<char>| l@) =~= split_lines(chars@.take(0)));
        }
        while i < chars.len()
            invariant
                0 <= i <= chars@.len(),
                lines@.map_values(|l: Vec<char>| l@) == split_lines(chars@.take(i as int)),
            decreases chars@.len() - i,
        {
            proof {
                lemma_split_join(chars@.take(i as int));
                assert(chars@.take(i + 1).drop_last() =~= chars@.take(i as int));
            }
            let c = chars[i];
            if c == '\n' {
                lines.push(Vec::new());
            } else {
                let k = lines.len() - 1;
                lines[k].push(c);
            }
            i = i + 1;
            proof {
                assert(lines@.map_values(|l: Vec<char>| l@) =~= split_lines(chars@.take(i as int)));
            }
        }
        proof {
            assert(chars@.take(chars@.len() as int) =~= chars@);
        }
        lines
    }

    /// The whole content as characters.
    fn content_chars(&self) -> (r: Vec<char>)
        requires
            self.wf(),
        ensures
            r@ == self.content(),
    {
        let mut out: Vec<char> = Vec::new();
        let mut i: usize = 0;
        while i < self.lines.len()
            invariant
                self.wf(),
                0 <= i <= self.text().len(),
                out@ == joined(self.text().take(i as int)),
            decreases self.text().len() - i,
        {
            let ghost t = self.text();
            proof {
                assert(t.take(i + 1).drop_last() =~= t.take(i as int));
            }
            if i > 0 {
                out.push('\n');
            }
            let ghost base = out@;
            let line = &self.lines[i];
            let mut j: usize = 0;
            while j < line.len()
                invariant
                    0 <= j <= line@.len(),
                    out@ == base + line@.take(j as int),
                decreases line@.len() - j,
            {
                out.push(line[j]);
                j = j + 1;
                proof {
                    assert(out@ =~= base + line@.take(j as int));
                }
            }
            proof {
                assert(line@.take(j as int) =~= line@);
                assert(line@ == t[i as int]);
                if i == 0 {
                    assert(t.take(1) =~= seq![t[0]]);
                } else {
                    assert(t.take(i + 1).last() == t[i as int]);
                }
            }
            i = i + 1;
        }
        proof {
            assert(self.text().take(self.text().len() as int) =~= self.text());
        }
        out
    }

    /// Whether two character sequences are equal.
    fn same_chars(a: &Vec<char>, b: &Vec<char>) -> (r: bool)
        ensures
            r == (a@ == b@),
    {
        if a.len() != b.len() {
            return false;
        }
        let mut i: usize = 0;
        while i < a.len()
            invariant
                a@.len() == b@.len(),
                0 <= i <= a@.len(),
                forall|k: int| 0 <= k < i ==> a@[k] == b@[k],
            decreases a@.len() - i,
        {
            if a[i] != b[i] {
                return false;
            }
            i = i + 1;
        }
        proof {
            assert(a@ =~= b@);
        }
        true
    }

    /// The whole content, lines joined with line breaks.
    pub fn to_string(&self) -> (r: String)
        requires
            self.wf(),
        ensures
            r@ == self.content(),
    {
        let chars = self.content_chars();
        string_of(&chars)
    }

    /// Whether the content is exactly `s`.
    pub fn is_str(&self, s: &str) -> (r: bool)
        requires
            self.wf(),
        ensures
            r == (self.content() == s@),
    {
        let mine = self.content_chars();
        let other = chars_of(s);
        Self::same_chars(&mine, &other)
    }

    /// Replaces the content by `s` and puts the cursor at its end, unless
    /// the content already is `s`, in which case nothing changes.
    pub fn set_str(&mut self, s: &str)
        requires
            old(self).wf(),
            s@.len() < usize::MAX,
        ensures
            final(self).wf(),
            final(self).content() == s@,
            old(self).content() == s@ ==> *final(self) == *old(self),
            old(self).content() != s@ ==> final(self).text() == split_lines(s@),
            old(self).content() != s@ ==> final(self).cursor() == (Pos {
                x: split_lines(s@).last().len() as usize,
                y: (split_lines(s@).len() - 1) as usize,
            }),
    {
        if self.is_str(s) {
            return;
        }
        let chars = chars_of(s);
        let lines = Self::lines_of(&chars);
        proof {
            lemma_split_join(s@);
        }
        let y = lines.len() - 1;
        let x = lines[y].len();
        self.lines = lines;
        self.pos = Pos { x, y };
        self.size = chars.len() + 1;
    }

    /// Inserts `c` at the cursor and moves the cursor after it; a line break
    /// breaks the cursor's line, the cursor going to the start of the new line.
    pub fn insert_char(&mut self, c: char)
        requires
            old(self).wf(),
            total(old(self).text()) < usize::MAX,
        ensures
            final(self).wf(),
            (final(self).text(), final(self).cursor()) == typed(old(self).text(), old(self).cursor(), c),
            total(final(self).text()) == total(old(self).text()) + 1,
    {
        if c == '\n' {
            self.insert_new_line();
            return;
        }
        let ghost t = self.text();
        assert(t.len() == self.lines@.len());
        proof {
            lemma_total_nonneg(t);
        }
        let y = self.pos.y;
        let x = self.pos.x;
        proof {
            lemma_total_split(t, y as int);
        }
        self.lines[y].insert(x, c);
        self.pos = Pos { x: x + 1, y };
        self.size = self.size + 1;
        proof {
            let l = t[y as int].insert(x as int, c);
            assert(self.text() =~= t.update(y as int, l));
            lemma_total_update(t, y as int, l);
            assert forall|i: int, j: int|
                0 <= i < self.text().len() && 0 <= j < self.text()[i].len() implies self.text()[i][j]
                != '\n' by {
                if i == y && j > x {
                    assert(self.text()[i][j] == t[i][j - 1]);
                }
            }
        }
    }

    /// Breaks the cursor's line at the cursor; the cursor goes to the start
    /// of the new line.
    pub fn insert_new_line(&mut self)
        requires
            old(self).wf(),
            total(old(self).text()) < usize::MAX,
        ensures
            final(self).wf(),
            final(self).text() == broken_at(old(self).text(), old(self).cursor()),
            final(self).cursor() == (Pos { x: 0, y: (old(self).cursor().y + 1) as usize }),
            total(final(self).text()) == total(old(self).text()) + 1,
    {
        let ghost t = self.text();
        assert(t.len() == self.lines@.len());
        proof {
            lemma_total_nonneg(t);
        }
        let y = self.pos.y;
        let x = self.pos.x;
        proof {
            lemma_total_split(t, y as int);
        }
        let tail = self.lines[y].split_off(x);
        self.lines.insert(y + 1, tail);
        self.pos = Pos { x: 0, y: y + 1 };
        self.size = self.size + 1;
        proof {
            let a = t[y as int].take(x as int);
            let b = t[y as int].skip(x as int);
            assert(self.text() =~= broken_at(t, Pos { x, y }));
            lemma_total_three(t.take(y as int), seq![a, b], t.skip(y + 1));
            lemma_total_two(a, b);
            assert(t =~= t.take(y as int) + seq![t[y as int]] + t.skip(y + 1));
            lemma_total_three(t.take(y as int), seq![t[y as int]], t.skip(y + 1));
            lemma_total_one(t[y as int]);
            assert forall|i: int, j: int|
                0 <= i < self.text().len() && 0 <= j < self.text()[i].len() implies self.text()[i][j]
                != '\n' by {
                if i == y + 1 {
                    assert(self.text()[i][j] == t[y as int][j + x]);
                } else if i > y + 1 {
                    assert(self.text()[i] == t[i - 1]);
                }
            }
        }
    }

    /// Types the characters of `s` at the cursor, in order.
    pub fn insert_str(&mut self, s: &str)
        requires
            old(self).wf(),
            total(old(self).text()) + s@.len() <= usize::MAX,
        ensures
            final(self).wf(),
            (final(self).text(), final(self).cursor()) == typed_all(
                old(self).text(),
                old(self).cursor(),
                s@,
            ),
    {
        let chars = chars_of(s);
        let ghost t0 = self.text();
        let ghost p0 = self.cursor();
        let mut i: usize = 0;
        proof {
            assert(chars@.take(0) =~= Seq::<char>::empty());
        }
        while i < chars.len()
            invariant
                self.wf(),
                chars@ == s@,
                0 <= i <= chars@.len(),
                total(self.text()) + chars@.len() - i <= usize::MAX,
                (self.text(), self.cursor()) == typed_all(t0, p0, chars@.take(i as int)),
            decreases chars@.len() - i,
        {
            proof {
                assert(chars@.take(i + 1).drop_last() =~= chars@.take(i as int));
            }
            self.insert_char(chars[i]);
            i = i + 1;
        }
        proof {
            assert(chars@.take(chars@.len() as int) =~= chars@);
        }
    }

    /// Deletes the character before the cursor, or joins the cursor's line to
    /// the previous one at the start of a line. Returns whether anything changed.
    pub fn del_char_left(&mut self) -> (r: bool)
        requires
            old(self).wf(),
        ensures
            final(self).wf(),
            (final(self).text(), final(self).cursor(), r) == deleted_left(
                old(self).text(),
                old(self).cursor(),
            ),
    {
        let ghost t = self.text();
        assert(t.len() == self.lines@.len());
        proof {
            lemma_total_nonneg(t);
        }
        let y = self.pos.y;
        let x = self.pos.x;
        if x > 0 {
            proof {
                lemma_total_split(t, y as int);
            }
            self.lines[y].remove(x - 1);
            self.pos = Pos { x: x - 1, y };
            self.size = self.size - 1;
            proof {
                let l = t[y as int].remove(x - 1);
                assert(self.text() =~= t.update(y as int, l));
                lemma_total_update(t, y as int, l);
                assert forall|i: int, j: int|
                    0 <= i < self.text().len() && 0 <= j < self.text()[i].len() implies self.text()[i][j]
                    != '\n' by {
                    if i == y && j >= x - 1 {
                        assert(self.text()[i][j] == t[i][j + 1]);
                    }
                }
            }
            true
        } else if y > 0 {
            let prev_len = self.lines[y - 1].len();
            self.merge_with_next(y - 1);
            self.pos = Pos { x: prev_len, y: y - 1 };
            true
        } else {
            false
        }
    }

    /// Deletes the character under the cursor, or joins the next line to the
    /// cursor's line at the end of a line. Returns whether anything changed.
    pub fn del_char_below(&mut self) -> (r: bool)
        requires
            old(self).wf(),
        ensures
            final(self).wf(),
            (final(self).text(), final(self).cursor(), r) == deleted_below(
                old(self).text(),
                old(self).cursor(),
            ),
    {
        let ghost t = self.text();
        assert(t.len() == self.lines@.len());
        proof {
            lemma_total_nonneg(t);
        }
        let y = self.pos.y;
        let x = self.pos.x;
        if x < self.lines[y].len() {
            proof {
                lemma_total_split(t, y as int);
            }
            self.lines[y].remove(x);
            self.size = self.size - 1;
            proof {
                let l = t[y as int].remove(x as int);
                assert(self.text() =~= t.update(y as int, l));
                lemma_total_update(t, y as int, l);
                assert forall|i: int, j: int|
                    0 <= i < self.text().len() && 0 <= j < self.text()[i].len() implies self.text()[i][j]
                    != '\n' by {
                    if i == y && j >= x {
                        assert(self.text()[i][j] == t[i][j + 1]);
                    }
                }
            }
            true
        } else if y + 1 < self.lines.len() {
            self.merge_with_next(y);
            true
        } else {
            false
        }
    }

    /// Joins line `k + 1` to line `k`, leaving the cursor field as it is.
    fn merge_with_next(&mut self, k: usize)
        requires
            valid_lines(old(self).text()),
            old(self).size_kept(),
            k + 1 < old(self).text().len(),
        ensures
            valid_lines(final(self).text()),
            final(self).size_kept(),
            final(self).text() == merged_at(old(self).text(), k as int),
            final(self).pos == old(self).pos,
    {
        let ghost t = self.text();
        assert(t.len() == self.lines@.len());
        proof {
            lemma_total_nonneg(t);
        }
        let mut next = self.lines.remove(k + 1);
        self.lines[k].append(&mut next);
        self.size = self.size - 1;
        proof {
            let m = t[k as int] + t[k + 1];
            assert(self.text() =~= merged_at(t, k as int));
            assert(t =~= t.take(k as int) + seq![t[k as int], t[k + 1]] + t.skip(k + 2));
            lemma_total_three(t.take(k as int), seq![t[k as int], t[k + 1]], t.skip(k + 2));
            lemma_total_three(t.take(k as int), seq![m], t.skip(k + 2));
            lemma_total_two(t[k as int], t[k + 1]);
            lemma_total_one(m);
            assert forall|i: int, j: int|
                0 <= i < self.text().len() && 0 <= j < self.text()[i].len() implies self.text()[i][j]
                != '\n' by {
                if i == k && j >= t[k as int].len() {
                    assert(self.text()[i][j] == t[k + 1][j - t[k as int].len()]);
                } else if i > k {
                    assert(self.text()[i] == t[i + 1]);
                }
            }
        }
    }

    /// Moves the cursor to `p`, and returns whether it moved.
    fn move_cursor(&mut self, p: Pos) -> (r: bool)
        requires
            valid_state(old(self).text(), p),
            old(self).size_kept(),
        ensures
            final(self).size_kept(),
            final(self).text() == old(self).text(),
            final(self).cursor() == p,
            r == (p != old(self).cursor()),
    {
        let moved = p.x != self.pos.x || p.y != self.pos.y;
        self.pos = p;
        moved
    }

    /// The cursor on line `y`, in its column or at the end of a shorter line.
    fn pos_on_line(&self, y: usize) -> (r: Pos)
        requires
            self.wf(),
            y < self.text().len(),
        ensures
            r == on_line(self.text(), self.cursor(), y as int),
    {
        let len = self.lines[y].len();
        Pos { x: if self.pos.x <= len { self.pos.x } else { len }, y }
    }

    /// Moves the cursor to `p`, clamped into the text.
    pub fn set_cursor_pos(&mut self, p: Pos)
        requires
            old(self).wf(),
        ensures
            final(self).wf(),
            final(self).text() == old(self).text(),
            final(self).cursor() == clamped_pos(old(self).text(), p),
    {
        let n = self.lines.len();
        let y = if p.y < n { p.y } else { n - 1 };
        let len = self.lines[y].len();
        let x = if p.x <= len { p.x } else { len };
        self.pos = Pos { x, y };
    }

    /// Moves one character left; returns whether the cursor moved.
    pub fn move_left(&mut self) -> (r: bool)
        requires
            old(self).wf(),
        ensures
            final(self).wf(),
            final(self).text() == old(self).text(),
            final(self).cursor() == left_of(old(self).text(), old(self).cursor()),
            r == (final(self).cursor() != old(self).cursor()),
    {
        let p = self.pos;
        if p.x > 0 {
            self.move_cursor(Pos { x: p.x - 1, y: p.y })
        } else if p.y > 0 {
            let x = self.lines[p.y - 1].len();
            self.move_cursor(Pos { x, y: p.y - 1 })
        } else {
            false
        }
    }

    /// Moves one character right; returns whether the cursor moved.
    pub fn move_right(&mut self) -> (r: bool)
        requires
            old(self).wf(),
        ensures
            final(self).wf(),
            final(self).text() == old(self).text(),
            final(self).cursor() == right_of(old(self).text(), old(self).cursor()),
            r == (final(self).cursor() != old(self).cursor()),
    {
        let p = self.pos;
        proof {
            lemma_total_nonneg(self.text());
        }
        if p.x < self.lines[p.y].len() {
            self.move_cursor(Pos { x: p.x + 1, y: p.y })
        } else if p.y + 1 < self.lines.len() {
            self.move_cursor(Pos { x: 0, y: p.y + 1 })
        } else {
            false
        }
    }

    /// Moves `n` lines up; returns whether the cursor moved.
    pub fn move_lines_up(&mut self, n: usize) -> (r: bool)
        requires
            old(self).wf(),
        ensures
            final(self).wf(),
            final(self).text() == old(self).text(),
            final(self).cursor() == lines_up(old(self).text(), old(self).cursor(), n as int),
            r == (final(self).cursor() != old(self).cursor()),
    {
        let y = if n <= self.pos.y { self.pos.y - n } else { 0 };
        let p = self.pos_on_line(y);
        self.move_cursor(p)
    }

    /// Moves `n` lines down; returns whether the cursor moved.
    pub fn move_lines_down(&mut self, n: usize) -> (r: bool)
        requires
            old(self).wf(),
        ensures
            final(self).wf(),
            final(self).text() == old(self).text(),
            final(self).cursor() == lines_down(old(self).text(), old(self).cursor(), n as int),
            r == (final(self).cursor() != old(self).cursor()),
    {
        let last = self.lines.len() - 1;
        let y = if n <= last - self.pos.y { self.pos.y + n } else { last };
        let p = self.pos_on_line(y);
        self.move_cursor(p)
    }

    /// Moves one line up; returns whether the cursor moved.
    pub fn move_up(&mut self) -> (r: bool)
        requires
            old(self).wf(),
        ensures
            final(self).wf(),
            final(self).text() == old(self).text(),
            final(self).cursor() == lines_up(old(self).text(), old(self).cursor(), 1),
            r == (final(self).cursor() != old(self).cursor()),
    {
        self.move_lines_up(1)
    }

    /// Moves one line down; returns whether the cursor moved.
    pub fn move_down(&mut self) -> (r: bool)
        requires
            old(self).wf(),
        ensures
            final(self).wf(),
            final(self).text() == old(self).text(),
            final(self).cursor() == lines_down(old(self).text(), old(self).cursor(), 1),
            r == (final(self).cursor() != old(self).cursor()),
    {
        self.move_lines_down(1)
    }

    /// Moves to the start of the cursor's line; returns whether the cursor moved.
    pub fn move_to_line_start(&mut self) -> (r: bool)
        requires
            old(self).wf(),
        ensures
            final(self).wf(),
            final(self).text() == old(self).text(),
            final(self).cursor() == (Pos { x: 0, y: old(self).cursor().y }),
            r == (final(self).cursor() != old(self).cursor()),
    {
        let y = self.pos.y;
        self.move_cursor(Pos { x: 0, y })
    }

    /// Moves to the end of the cursor's line; returns whether the cursor moved.
    pub fn move_to_line_end(&mut self) -> (r: bool)
        requires
            old(self).wf(),
        ensures
            final(self).wf(),
            final(self).text() == old(self).text(),
            final(self).cursor() == (Pos {
                x: old(self).text()[old(self).cursor().y as int].len() as usize,
                y: old(self).cursor().y,
            }),
            r == (final(self).cursor() != old(self).cursor()),
    {
        let y = self.pos.y;
        let x = self.lines[y].len();
        self.move_cursor(Pos { x, y })
    }

    /// Moves to the start of the text; returns whether the cursor moved.
    pub fn move_to_start(&mut self) -> (r: bool)
        requires
            old(self).wf(),
        ensures
            final(self).wf(),
            final(self).text() == old(self).text(),
            final(self).cursor() == (Pos { x: 0, y: 0 }),
            r == (final(self).cursor() != old(self).cursor()),
    {
        self.move_cursor(Pos { x: 0, y: 0 })
    }

    /// Moves to the end of the text; returns whether the cursor moved.
    pub fn move_to_end(&mut self) -> (r: bool)
        requires
            old(self).wf(),
        ensures
            final(self).wf(),
            final(self).text() == old(self).text(),
            final(self).cursor() == (Pos {
                x: old(self).text().last().len() as usize,
                y: (old(self).text().len() - 1) as usize,
            }),
            r == (final(self).cursor() != old(self).cursor()),
    {
        let y = self.lines.len() - 1;
        let x = self.lines[y].len();
        self.move_cursor(Pos { x, y })
    }

    /// The start of the word before column `x` of line `y`.
    fn find_word_start(&self, y: usize, x: usize) -> (r: usize)
        requires
            self.wf(),
            y < self.text().len(),
            x <= self.text()[y as int].len(),
        ensures
            r == word_start(self.text()[y as int], x as int),
    {
        let line = &self.lines[y];
        let ghost l = line@;
        let mut k = x;
        while k > 0 && (line[k - 1] == ' ' || line[k - 1] == '\t')
            invariant
                l == line@,
                0 <= k <= x <= l.len(),
                skip_spaces_left(l, k as int) == skip_spaces_left(l, x as int),
            decreases k,
        {
            k = k - 1;
        }
        let ghost s = k;
        while k > 0 && !(line[k - 1] == ' ' || line[k - 1] == '\t')
            invariant
                l == line@,
                0 <= k <= x <= l.len(),
                skip_spaces_left(l, x as int) == s,
                skip_word_left(l, k as int) == skip_word_left(l, s as int),
            decreases k,
        {
            k = k - 1;
        }
        k
    }

    /// The end of the word after column `x` of line `y`.
    fn find_word_end(&self, y: usize, x: usize) -> (r: usize)
        requires
            self.wf(),
            y < self.text().len(),
            x <= self.text()[y as int].len(),
        ensures
            r == word_end(self.text()[y as int], x as int),
    {
        let line = &self.lines[y];
        let ghost l = line@;
        let len = line.len();
        let mut k = x;
        while k < len && (line[k] == ' ' || line[k] == '\t')
            invariant
                l == line@,
                len == l.len(),
                x <= k <= len,
                skip_spaces_right(l, k as int) == skip_spaces_right(l, x as int),
            decreases len - k,
        {
            k = k + 1;
        }
        let ghost s = k;
        while k < len && !(line[k] == ' ' || line[k] == '\t')
            invariant
                l == line@,
                len == l.len(),
                x <= k <= len,
                skip_spaces_right(l, x as int) == s,
                skip_word_right(l, k as int) == skip_word_right(l, s as int),
            decreases len - k,
        {
            k = k + 1;
        }
        k
    }

    /// Removes columns `[a, b)` of line `y`, leaving the cursor field as it is.
    fn remove_columns(&mut self, y: usize, a: usize, b: usize)
        requires
            valid_lines(old(self).text()),
            old(self).size_kept(),
            y < old(self).text().len(),
            a <= b <= old(self).text()[y as int].len(),
        ensures
            valid_lines(final(self).text()),
            final(self).size_kept(),
            final(self).text() == old(self).text().update(
                y as int,
                old(self).text()[y as int].take(a as int) + old(self).text()[y as int].skip(b as int),
            ),
            final(self).pos == old(self).pos,
    {
        let ghost t = self.text();
        proof {
            lemma_total_split(t, y as int);
        }
        let mut tail = self.lines[y].split_off(b);
        assert(self.lines@[y as int]@ =~= t[y as int].take(b as int));
        assert(tail@ =~= t[y as int].skip(b as int));
        self.lines[y].truncate(a);
        assert(self.lines@[y as int]@ =~= t[y as int].take(a as int));
        self.lines[y].append(&mut tail);
        self.size = self.size - (b - a);
        proof {
            let l = t[y as int].take(a as int) + t[y as int].skip(b as int);
            assert(self.lines@[y as int]@ =~= l);
            assert(self.text() =~= t.update(y as int, l));
            lemma_total_update(t, y as int, l);
            assert forall|i: int, j: int|
                0 <= i < self.text().len() && 0 <= j < self.text()[i].len() implies self.text()[i][j]
                != '\n' by {
                if i == y && j >= a {
                    assert(self.text()[i][j] == t[i][j - a + b]);
                }
            }
        }
    }

    /// Moves to the start of the word before the cursor, or to the end of the
    /// previous line from a line start. Returns whether the cursor moved.
    pub fn move_word_left(&mut self) -> (r: bool)
        requires
            old(self).wf(),
        ensures
            final(self).wf(),
            final(self).text() == old(self).text(),
            final(self).cursor() == word_left_of(old(self).text(), old(self).cursor()),
            r == (final(self).cursor() != old(self).cursor()),
    {
        if self.pos.x == 0 {
            return self.move_left();
        }
        let y = self.pos.y;
        let x = self.find_word_start(y, self.pos.x);
        proof {
            lemma_skip_left_bounds(self.text()[y as int], self.pos.x as int);
        }
        self.move_cursor(Pos { x, y })
    }

    /// Moves to the end of the word after the cursor, or to the start of the
    /// next line from a line end. Returns whether the cursor moved.
    pub fn move_word_right(&mut self) -> (r: bool)
        requires
            old(self).wf(),
        ensures
            final(self).wf(),
            final(self).text() == old(self).text(),
            final(self).cursor() == word_right_of(old(self).text(), old(self).cursor()),
            r == (final(self).cursor() != old(self).cursor()),
    {
        let y = self.pos.y;
        if self.pos.x == self.lines[y].len() {
            return self.move_right();
        }
        let x = self.find_word_end(y, self.pos.x);
        proof {
            lemma_word_end_bounds(self.text()[y as int], self.pos.x as int);
        }
        self.move_cursor(Pos { x, y })
    }

    /// Deletes back to the start of the word before the cursor; at a line
    /// start, joins the line to the previous one. Returns whether anything changed.
    pub fn del_word_left(&mut self) -> (r: bool)
        requires
            old(self).wf(),
        ensures
            final(self).wf(),
            (final(self).text(), final(self).cursor(), r) == deleted_word_left(
                old(self).text(),
                old(self).cursor(),
            ),
    {
        if self.pos.x == 0 {
            return self.del_char_left();
        }
        let y = self.pos.y;
        let x = self.pos.x;
        let a = self.find_word_start(y, x);
        proof {
            lemma_skip_left_bounds(self.text()[y as int], x as int);
        }
        self.remove_columns(y, a, x);
        self.pos = Pos { x: a, y };
        true
    }

    /// Deletes up to the end of the word after the cursor; at a line end,
    /// joins the next line to this one. Returns whether anything changed.
    pub fn del_word_right(&mut self) -> (r: bool)
        requires
            old(self).wf(),
        ensures
            final(self).wf(),
            (final(self).text(), final(self).cursor(), r) == deleted_word_right(
                old(self).text(),
                old(self).cursor(),
            ),
    {
        let y = self.pos.y;
        let x = self.pos.x;
        if x == self.lines[y].len() {
            return self.del_char_below();
        }
        let b = self.find_word_end(y, x);
        proof {
            lemma_word_end_bounds(self.text()[y as int], x as int);
        }
        self.remove_columns(y, x, b);
        true
    }

    /// Empties the buffer.
    pub fn clear(&mut self)
        ensures
            final(self).wf(),
            final(self).text() == seq![Seq::<char>::empty()],
            final(self).cursor() == (Pos { x: 0, y: 0 }),
    {
        *self = Self::new();
    }
}

/// A text of two lines or more holds at least one line break.
proof fn lemma_joined_len(t: Seq<Seq<char>>)
    ensures
        t.len() >= 2 ==> joined(t).len() >= 1,
        t.len() == 1 ==> joined(t) == t[0],
{
    if t.len() >= 2 {
        reveal_with_fuel(joined, 1);
        assert(joined(t).len() >= 1);
    }
}

} // verus!
