//! Paths as sequences of named parts.
//!
//! A path is either rooted (it starts at the file-system root) or relative,
//! and holds the names that lead from there to the file. All reasoning about
//! containment, prefixes and joining is done on this model; text is only
//! touched by [`FilePath::parse`] and [`FilePath::render`].

use vstd::prelude::*;

verus! {

/// The mathematical value of a path.
pub struct PathModel {
    /// Whether the path starts at the file-system root.
    pub rooted: bool,
    /// The names along the path, outermost first.
    pub parts: Seq<Seq<char>>,
}

impl PathModel {
    /// `base` leads to this path: both start at the same place and the parts
    /// of `base` are the first parts of `self`.
    pub open spec fn starts_with(self, base: PathModel) -> bool {
        self.rooted == base.rooted && base.parts.is_prefix_of(self.parts)
    }

    /// What is left of this path below `base`, as a relative path.
    pub open spec fn strip_prefix(self, base: PathModel) -> PathModel {
        PathModel { rooted: false, parts: self.parts.skip(base.parts.len() as int) }
    }

    /// `other` seen from this path: a rooted `other` stands for itself, a
    /// relative one is appended.
    pub open spec fn join(self, other: PathModel) -> PathModel {
        if other.rooted {
            other
        } else {
            PathModel { rooted: self.rooted, parts: self.parts + other.parts }
        }
    }

    /// This path with one more part at its end.
    pub open spec fn child(self, name: Seq<char>) -> PathModel {
        PathModel { rooted: self.rooted, parts: self.parts.push(name) }
    }

    /// The path without its last part; `None` where there is no part.
    pub open spec fn parent(self) -> Option<PathModel> {
        if self.parts.len() == 0 {
            None
        } else {
            Some(PathModel { rooted: self.rooted, parts: self.parts.drop_last() })
        }
    }

    /// No part is empty, is the single dot, or holds a separator: the paths
    /// that text can express.
    pub open spec fn well_formed(self) -> bool {
        well_formed_parts(self.parts)
    }
}

/// No part is empty, is the single dot, or holds a separator.
pub open spec fn well_formed_parts(parts: Seq<Seq<char>>) -> bool {
    forall|i: int|
        0 <= i < parts.len() ==> is_kept(#[trigger] parts[i]) && !parts[i].contains('/')
}

/// The views of a sequence of strings.
pub open spec fn texts(v: Seq<String>) -> Seq<Seq<char>> {
    Seq::new(v.len(), |i: int| v[i]@)
}

/// A segment between separators that counts as a part: empty segments and the
/// single dot name nothing.
pub open spec fn is_kept(segment: Seq<char>) -> bool {
    segment.len() > 0 && !(segment.len() == 1 && segment[0] == '.')
}

/// `done` with `segment` at its end, if the segment counts as a part.
pub open spec fn with_segment(done: Seq<Seq<char>>, segment: Seq<char>) -> Seq<Seq<char>> {
    if is_kept(segment) {
        done.push(segment)
    } else {
        done
    }
}

/// Reading `text` from the left: the parts that were closed by a separator,
/// and the segment that is still open.
pub open spec fn scan(text: Seq<char>) -> (Seq<Seq<char>>, Seq<char>)
    decreases text.len(),
{
    if text.len() == 0 {
        (Seq::empty(), Seq::empty())
    } else {
        let before = scan(text.drop_last());
        if text.last() == '/' {
            (with_segment(before.0, before.1), Seq::empty())
        } else {
            (before.0, before.1.push(text.last()))
        }
    }
}

/// The path that `text` spells: rooted if it begins with a separator, with the
/// segments between separators as its parts.
pub open spec fn parse_path(text: Seq<char>) -> PathModel {
    let read = scan(text);
    PathModel {
        rooted: text.len() > 0 && text[0] == '/',
        parts: with_segment(read.0, read.1),
    }
}

/// The pieces with `between` standing between neighbours.
pub open spec fn separated(pieces: Seq<Seq<char>>, between: char) -> Seq<char>
    decreases pieces.len(),
{
    if pieces.len() == 0 {
        Seq::empty()
    } else if pieces.len() == 1 {
        pieces[0]
    } else {
        separated(pieces.drop_last(), between) + seq![between] + pieces.last()
    }
}

/// The parts with one separator between neighbours.
pub open spec fn joined(parts: Seq<Seq<char>>) -> Seq<char> {
    separated(parts, '/')
}

/// The views of a sequence of paths.
pub open spec fn paths(v: Seq<FilePath>) -> Seq<PathModel> {
    Seq::new(v.len(), |i: int| v[i]@)
}

/// The text of a path: a leading separator if it is rooted, then its parts.
pub open spec fn render_path(p: PathModel) -> Seq<char> {
    if p.rooted {
        seq!['/'] + joined(p.parts)
    } else {
        joined(p.parts)
    }
}

/// A path held as plain values.
#[derive(Debug, PartialEq, Eq)]
pub struct FilePath {
    rooted: bool,
    parts: Vec<String>,
}

impl View for FilePath {
    type V = PathModel;

    closed spec fn view(&self) -> PathModel {
        PathModel { rooted: self.rooted, parts: texts(self.parts@) }
    }
}

impl Clone for FilePath {
    fn clone(&self) -> (res: Self)
        ensures
            res@ == self@,
    {
        let parts = clone_strings(&self.parts);
        FilePath { rooted: self.rooted, parts }
    }
}

/// A copy of a list of paths.
pub(crate) fn clone_paths(v: &[FilePath]) -> (res: Vec<FilePath>)
    ensures
        paths(res@) == paths(v@),
{
    let mut res: Vec<FilePath> = Vec::new();
    let mut i: usize = 0;
    while i < v.len()
        invariant
            i <= v.len(),
            res.len() == i,
            forall|j: int| 0 <= j < i ==> res@[j]@ == v@[j]@,
        decreases v.len() - i,
    {
        res.push(v[i].clone());
        i += 1;
    }
    assert(paths(res@) =~= paths(v@));
    res
}

/// Adds to `text` the pieces with `between` standing between neighbours.
pub(crate) fn append_separated(text: &mut String, pieces: &Vec<String>, between: char, between_text: &str)
    requires
        between_text@ == seq![between],
    ensures
        final(text)@ == old(text)@ + separated(texts(pieces@), between),
{
    let ghost lead = text@;
    let mut i: usize = 0;
    while i < pieces.len()
        invariant
            i <= pieces.len(),
            between_text@ == seq![between],
            text@ == lead + separated(texts(pieces@).take(i as int), between),
        decreases pieces.len() - i,
    {
        proof {
            let next = texts(pieces@).take(i + 1);
            assert(next.drop_last() =~= texts(pieces@).take(i as int));
            assert(next.last() == pieces@[i as int]@);
            if i == 0 {
                assert(separated(texts(pieces@).take(0), between) =~= Seq::<char>::empty());
            }
        }
        if i > 0 {
            text.append(between_text);
        }
        text.append(pieces[i].as_str());
        assert(text@ =~= lead + separated(texts(pieces@).take(i + 1), between));
        i += 1;
    }
    assert(texts(pieces@).take(i as int) =~= texts(pieces@));
}

/// Whether two pieces of text hold the same characters.
pub(crate) fn same_text(a: &str, b: &str) -> (same: bool)
    ensures
        same == (a@ == b@),
{
    let left = String::from_str(a);
    let right = String::from_str(b);
    left == right
}

/// A copy of a list of strings.
pub(crate) fn clone_strings(v: &Vec<String>) -> (res: Vec<String>)
    ensures
        texts(res@) == texts(v@),
{
    let mut res: Vec<String> = Vec::new();
    let mut i: usize = 0;
    while i < v.len()
        invariant
            i <= v.len(),
            res.len() == i,
            forall|j: int| 0 <= j < i ==> res@[j]@ == v@[j]@,
        decreases v.len() - i,
    {
        res.push(v[i].clone());
        i += 1;
    }
    assert(texts(res@) =~= texts(v@));
    res
}

impl FilePath {
    /// The path with the given start and parts.
    pub fn new(rooted: bool, parts: Vec<String>) -> (p: FilePath)
        ensures
            p@ == (PathModel { rooted, parts: texts(parts@) }),
    {
        FilePath { rooted, parts }
    }

    /// Whether the path starts at the file-system root.
    pub fn is_absolute(&self) -> (b: bool)
        ensures
            b == self@.rooted,
    {
        self.rooted
    }

    /// The names along the path.
    pub fn parts(&self) -> (parts: &Vec<String>)
        ensures
            texts(parts@) == self@.parts,
    {
        &self.parts
    }

    /// Whether both paths have the same start and the same parts.
    pub fn same(&self, other: &FilePath) -> (b: bool)
        ensures
            b == (self@ == other@),
    {
        if self.rooted != other.rooted || self.parts.len() != other.parts.len() {
            assert(texts(self.parts@).len() == self.parts.len());
            assert(texts(other.parts@).len() == other.parts.len());
            return false;
        }
        let mut i: usize = 0;
        while i < self.parts.len()
            invariant
                i <= self.parts.len(),
                self.parts.len() == other.parts.len(),
                forall|j: int| 0 <= j < i ==> self.parts@[j]@ == other.parts@[j]@,
            decreases self.parts.len() - i,
        {
            if self.parts[i] != other.parts[i] {
                assert(texts(self.parts@)[i as int] != texts(other.parts@)[i as int]);
                return false;
            }
            i += 1;
        }
        assert(texts(self.parts@) =~= texts(other.parts@));
        true
    }

    /// Whether `base` leads to this path.
    pub fn starts_with(&self, base: &FilePath) -> (b: bool)
        ensures
            b == self@.starts_with(base@),
    {
        if self.rooted != base.rooted || base.parts.len() > self.parts.len() {
            return false;
        }
        let mut i: usize = 0;
        while i < base.parts.len()
            invariant
                i <= base.parts.len(),
                base.parts.len() <= self.parts.len(),
                forall|j: int| 0 <= j < i ==> self.parts@[j]@ == base.parts@[j]@,
            decreases base.parts.len() - i,
        {
            if self.parts[i] != base.parts[i] {
                assert(texts(self.parts@)[i as int] != texts(base.parts@)[i as int]);
                return false;
            }
            i += 1;
        }
        assert(texts(base.parts@) =~= texts(self.parts@).subrange(0, base.parts.len() as int));
        true
    }

    /// What is left of this path below `base`; `None` unless `base` leads to it.
    pub fn strip_prefix(&self, base: &FilePath) -> (rest: Option<FilePath>)
        ensures
            rest.is_some() == self@.starts_with(base@),
            rest matches Some(p) ==> p@ == self@.strip_prefix(base@),
    {
        if !self.starts_with(base) {
            return None;
        }
        let mut parts: Vec<String> = Vec::new();
        let mut i: usize = base.parts.len();
        while i < self.parts.len()
            invariant
                base.parts.len() <= i <= self.parts.len(),
                parts.len() == i - base.parts.len(),
                forall|j: int| 0 <= j < parts.len() ==> parts@[j]@ == self.parts@[j + base.parts.len()]@,
            decreases self.parts.len() - i,
        {
            parts.push(self.parts[i].clone());
            i += 1;
        }
        assert(texts(parts@) =~= texts(self.parts@).skip(base.parts.len() as int));
        Some(FilePath { rooted: false, parts })
    }

    /// `other` seen from this path.
    pub fn join(&self, other: &FilePath) -> (p: FilePath)
        ensures
            p@ == self@.join(other@),
    {
        if other.rooted {
            return other.clone();
        }
        let mut parts = clone_strings(&self.parts);
        let mut i: usize = 0;
        while i < other.parts.len()
            invariant
                i <= other.parts.len(),
                texts(parts@) == texts(self.parts@) + texts(other.parts@).take(i as int),
            decreases other.parts.len() - i,
        {
            let ghost before = texts(parts@);
            parts.push(other.parts[i].clone());
            assert(texts(parts@) =~= before.push(other.parts@[i as int]@));
            assert(texts(other.parts@).take(i + 1) =~= texts(other.parts@).take(i as int).push(
                other.parts@[i as int]@,
            ));
            i += 1;
        }
        assert(texts(other.parts@).take(i as int) =~= texts(other.parts@));
        FilePath { rooted: self.rooted, parts }
    }

    /// This path with one more part at its end.
    pub fn child(&self, name: &str) -> (p: FilePath)
        ensures
            p@ == self@.child(name@),
    {
        let mut parts = clone_strings(&self.parts);
        let ghost before = texts(parts@);
        parts.push(String::from_str(name));
        assert(texts(parts@) =~= before.push(name@));
        FilePath { rooted: self.rooted, parts }
    }

    /// The path without its last part; `None` where there is no part.
    pub fn parent(&self) -> (p: Option<FilePath>)
        ensures
            p.is_some() == self@.parent().is_some(),
            p matches Some(q) ==> Some(q@) == self@.parent(),
    {
        if self.parts.len() == 0 {
            return None;
        }
        let mut parts: Vec<String> = Vec::new();
        let mut i: usize = 0;
        while i + 1 < self.parts.len()
            invariant
                0 < self.parts.len(),
                i < self.parts.len(),
                parts.len() == i,
                forall|j: int| 0 <= j < i ==> parts@[j]@ == self.parts@[j]@,
            decreases self.parts.len() - i,
        {
            parts.push(self.parts[i].clone());
            i += 1;
        }
        assert(texts(parts@) =~= texts(self.parts@).drop_last());
        Some(FilePath { rooted: self.rooted, parts })
    }

    /// The path that `text` spells.
    pub fn parse(text: &str) -> (p: FilePath)
        ensures
            p@ == parse_path(text@),
            p@.well_formed(),
    {
        proof {
            lemma_parse_well_formed(text@);
        }
        let n = text.unicode_len();
        let mut parts: Vec<String> = Vec::new();
        let mut start: usize = 0;
        let mut i: usize = 0;
        while i < n
            invariant
                n == text@.len(),
                start <= i <= n,
                scan(text@.take(i as int)) == (
                    texts(parts@),
                    text@.subrange(start as int, i as int),
                ),
            decreases n - i,
        {
            let c = text.get_char(i);
            proof {
                let read = text@.take(i + 1);
                assert(read.drop_last() =~= text@.take(i as int));
                assert(read.last() == c);
                assert(text@.subrange(i + 1, i + 1) =~= Seq::<char>::empty());
                assert(text@.subrange(start as int, i as int).push(c) =~= text@.subrange(
                    start as int,
                    i + 1,
                ));
            }
            if c == '/' {
                push_segment(&mut parts, text.substring_char(start, i));
                start = i + 1;
            }
            i += 1;
        }
        assert(text@.take(n as int) =~= text@);
        push_segment(&mut parts, text.substring_char(start, n));
        let rooted = n > 0 && text.get_char(0) == '/';
        FilePath { rooted, parts }
    }

    /// The text of the path.
    pub fn render(&self) -> (text: String)
        ensures
            text@ == render_path(self@),
    {
        let mut text = String::new();
        proof {
            reveal_strlit("/");
            assert("/"@ =~= seq!['/']);
        }
        if self.rooted {
            text.append("/");
        }
        let ghost lead = text@;
        append_separated(&mut text, &self.parts, '/', "/");
        assert(lead + joined(texts(self.parts@)) =~= render_path(self@));
        text
    }
}

/// Closes the segment `segment`: it joins `parts` if it counts as a part.
fn push_segment(parts: &mut Vec<String>, segment: &str)
    ensures
        texts(final(parts)@) == with_segment(texts(old(parts)@), segment@),
{
    let n = segment.unicode_len();
    if n > 0 && !(n == 1 && segment.get_char(0) == '.') {
        let ghost before = texts(parts@);
        parts.push(String::from_str(segment));
        assert(texts(parts@) =~= before.push(segment@));
    }
}

/// Reading on over a stretch without separators only lengthens the open
/// segment.
pub proof fn lemma_scan_segment(text: Seq<char>, segment: Seq<char>)
    requires
        !segment.contains('/'),
    ensures
        scan(text + segment) == (scan(text).0, scan(text).1 + segment),
    decreases segment.len(),
{
    if segment.len() == 0 {
        assert(text + segment =~= text);
        assert(scan(text).1 + segment =~= scan(text).1);
    } else {
        let shorter = segment.drop_last();
        assert(segment.last() != '/') by {
            assert(segment[segment.len() - 1] == segment.last());
        }
        assert(!shorter.contains('/')) by {
            if shorter.contains('/') {
                let k = choose|k: int| 0 <= k < shorter.len() && shorter[k] == '/';
                assert(segment[k] == '/');
            }
        }
        lemma_scan_segment(text, shorter);
        assert((text + segment).drop_last() =~= text + shorter);
        assert((text + segment).last() == segment.last());
        assert((scan(text).1 + shorter).push(segment.last()) =~= scan(text).1 + segment);
    }
}

/// Reading the text of well-formed parts, after nothing or after one
/// separator, leaves the last part open and all others closed.
pub proof fn lemma_scan_joined(lead: Seq<char>, parts: Seq<Seq<char>>)
    requires
        lead == Seq::<char>::empty() || lead == seq!['/'],
        parts.len() > 0,
        well_formed_parts(parts),
    ensures
        scan(lead + joined(parts)) == (parts.drop_last(), parts.last()),
    decreases parts.len(),
{
    assert(scan(lead) == (Seq::<Seq<char>>::empty(), Seq::<char>::empty())) by {
        if lead.len() > 0 {
            assert(lead.drop_last() =~= Seq::<char>::empty());
            assert(lead.last() == '/');
            reveal_with_fuel(scan, 2);
        }
    }
    assert(is_kept(parts.last()) && !parts.last().contains('/')) by {
        assert(parts[parts.len() - 1] == parts.last());
    }
    if parts.len() == 1 {
        lemma_scan_segment(lead, parts[0]);
        assert(Seq::<char>::empty() + parts[0] =~= parts[0]);
        assert(parts.drop_last() =~= Seq::<Seq<char>>::empty());
    } else {
        let front = parts.drop_last();
        assert(well_formed_parts(front)) by {
            assert forall|i: int| 0 <= i < front.len() implies is_kept(#[trigger] front[i])
                && !front[i].contains('/') by {
                assert(front[i] == parts[i]);
            }
        }
        lemma_scan_joined(lead, front);
        let closed = lead + joined(front) + seq!['/'];
        assert(closed.drop_last() =~= lead + joined(front));
        assert(closed.last() == '/');
        assert(is_kept(front.last())) by {
            assert(front.last() == parts[parts.len() - 2]);
        }
        assert(front.drop_last().push(front.last()) =~= front);
        assert(scan(closed) == (front, Seq::<char>::empty()));
        lemma_scan_segment(closed, parts.last());
        assert(closed + parts.last() =~= lead + joined(parts));
        assert(Seq::<char>::empty() + parts.last() =~= parts.last());
    }
}

/// The text of parts that are not empty begins as the first part does.
pub proof fn lemma_joined_first(parts: Seq<Seq<char>>)
    requires
        parts.len() > 0,
        parts[0].len() > 0,
    ensures
        joined(parts).len() > 0,
        joined(parts)[0] == parts[0][0],
    decreases parts.len(),
{
    if parts.len() > 1 {
        lemma_joined_first(parts.drop_last());
    }
}

/// Reading the text of a well-formed path gives the path back.
pub proof fn lemma_parse_render(p: PathModel)
    requires
        p.well_formed(),
    ensures
        parse_path(render_path(p)) == p,
{
    let lead: Seq<char> = if p.rooted {
        seq!['/']
    } else {
        Seq::empty()
    };
    let text = render_path(p);
    assert(text =~= lead + joined(p.parts));
    if p.parts.len() == 0 {
        assert(text =~= lead);
        if p.rooted {
            assert(text.drop_last() =~= Seq::<char>::empty());
            reveal_with_fuel(scan, 2);
        }
        assert(parse_path(text).parts =~= p.parts);
    } else {
        lemma_scan_joined(lead, p.parts);
        assert(is_kept(p.parts.last())) by {
            assert(p.parts[p.parts.len() - 1] == p.parts.last());
        }
        assert(p.parts.drop_last().push(p.parts.last()) =~= p.parts);
        assert(is_kept(p.parts[0]) && !p.parts[0].contains('/'));
        lemma_joined_first(p.parts);
        if !p.rooted {
            assert(p.parts[0][0] != '/') by {
                if p.parts[0][0] == '/' {
                    assert(p.parts[0].contains('/'));
                }
            }
        }
    }
}

/// Reading closes only segments that count as parts and hold no separator,
/// and the open segment holds none either.
pub proof fn lemma_scan_well_formed(text: Seq<char>)
    ensures
        well_formed_parts(scan(text).0),
        !scan(text).1.contains('/'),
    decreases text.len(),
{
    if text.len() > 0 {
        let before = scan(text.drop_last());
        lemma_scan_well_formed(text.drop_last());
        if text.last() == '/' {
            lemma_with_segment_well_formed(before.0, before.1);
        } else {
            let open = before.1.push(text.last());
            if open.contains('/') {
                let k = choose|k: int| 0 <= k < open.len() && open[k] == '/';
                assert(before.1[k] == '/');
            }
        }
    }
}

/// Closing a segment without separator keeps the parts well formed.
proof fn lemma_with_segment_well_formed(done: Seq<Seq<char>>, segment: Seq<char>)
    requires
        well_formed_parts(done),
        !segment.contains('/'),
    ensures
        well_formed_parts(with_segment(done, segment)),
{
    let after = with_segment(done, segment);
    assert forall|i: int| 0 <= i < after.len() implies is_kept(#[trigger] after[i])
        && !after[i].contains('/') by {
        if i < done.len() {
            assert(after[i] == done[i]);
        }
    }
}

/// The path that text spells is well formed.
pub proof fn lemma_parse_well_formed(text: Seq<char>)
    ensures
        parse_path(text).well_formed(),
{
    lemma_scan_well_formed(text);
    lemma_with_segment_well_formed(scan(text).0, scan(text).1);
}

} // verus!
