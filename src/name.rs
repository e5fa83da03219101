use vstd::prelude::*;
use vstd::string::{StrSliceExecFns, StringExecFns};

verus! {

/// Number of segments a [`Name`] can hold.
pub const NAME_CAPACITY: usize = 16;

/// One segment of a field path: a numeric index into a list, or a key.
#[derive(Clone, Copy, PartialEq, Eq, Hash, Debug)]
pub enum NamePart {
    Index(usize),
    Key(&'static str),
}

/// The mathematical value of a [`NamePart`].
pub enum PartView {
    Index(usize),
    Key(Seq<char>),
}

impl View for NamePart {
    type V = PartView;

    open spec fn view(&self) -> PartView {
        match self {
            NamePart::Index(i) => PartView::Index(*i),
            NamePart::Key(k) => PartView::Key(k@),
        }
    }
}

/// A path of at most sixteen segments, addressing a field in a nested form.
///
/// The segments fill the first `len` slots; the other slots are empty.
#[derive(Clone, Copy, PartialEq, Eq, Hash, Debug)]
pub struct Name {
    slots: [Option<NamePart>; 16],
    len: usize,
}

impl View for Name {
    type V = Seq<PartView>;

    closed spec fn view(&self) -> Seq<PartView> {
        Seq::new(self.len as nat, |i: int| self.slots@[i]->0@)
    }
}

impl Name {
    #[verifier::type_invariant]
    closed spec fn filled_prefix(&self) -> bool {
        &&& self.len <= NAME_CAPACITY
        &&& forall|i: int| 0 <= i < NAME_CAPACITY ==> (#[trigger] self.slots@[i] is Some <==> i < self.len)
    }

    /// The empty path.
    pub fn new() -> (r: Name)
        ensures
            r@ == Seq::<PartView>::empty(),
    {
        let r = Name { slots: [None; 16], len: 0 };
        assert(r@ =~= Seq::<PartView>::empty());
        r
    }

    /// Number of segments.
    pub fn len(&self) -> (r: usize)
        ensures
            r == self@.len(),
            r <= NAME_CAPACITY,
    {
        proof {
            use_type_invariant(self);
        }
        self.len
    }

    /// Appends a segment. The path must not be full.
    pub fn push(self, part: NamePart) -> (r: Name)
        requires
            self@.len() < NAME_CAPACITY,
        ensures
            r@ == self@.push(part@),
    {
        proof {
            use_type_invariant(&self);
        }
        let mut slots = self.slots;
        slots[self.len] = Some(part);
        let r = Name { slots, len: self.len + 1 };
        assert(r@ =~= self@.push(part@));
        r
    }

    /// Appends a list index.
    pub fn push_index(self, index: usize) -> (r: Name)
        requires
            self@.len() < NAME_CAPACITY,
        ensures
            r@ == self@.push(PartView::Index(index)),
    {
        self.push(NamePart::Index(index))
    }

    /// Appends a key.
    pub fn push_key(self, key: &'static str) -> (r: Name)
        requires
            self@.len() < NAME_CAPACITY,
        ensures
            r@ == self@.push(PartView::Key(key@)),
    {
        self.push(NamePart::Key(key))
    }

    /// The segment at position `i`.
    pub fn part(&self, i: usize) -> (r: NamePart)
        requires
            i < self@.len(),
        ensures
            r@ == self@[i as int],
    {
        proof {
            use_type_invariant(self);
        }
        match self.slots[i] {
            Some(p) => p,
            None => {
                assert(false);
                NamePart::Index(0)
            },
        }
    }
}

/// `[` and `]` separate the segments of a textual path.
pub open spec fn is_bracket(c: char) -> bool {
    c == '[' || c == ']'
}

/// Reading `s` from the left: the segments completed so far, and the segment being read.
pub open spec fn scan_segments(s: Seq<char>) -> (Seq<Seq<char>>, Seq<char>)
    decreases s.len(),
{
    if s.len() == 0 {
        (Seq::empty(), Seq::empty())
    } else {
        let (done, cur) = scan_segments(s.drop_last());
        if is_bracket(s.last()) {
            if cur.len() > 0 {
                (done.push(cur), Seq::empty())
            } else {
                (done, cur)
            }
        } else {
            (done, cur.push(s.last()))
        }
    }
}

/// The maximal non-empty runs of `s` that hold no bracket, in order.
pub open spec fn segments(s: Seq<char>) -> Seq<Seq<char>> {
    let (done, cur) = scan_segments(s);
    if cur.len() > 0 {
        done.push(cur)
    } else {
        done
    }
}

/// Value of a non-empty run of ASCII digits, read in base ten.
pub open spec fn digits_value(d: Seq<char>) -> nat
    decreases d.len(),
{
    if d.len() == 0 {
        0
    } else {
        digits_value(d.drop_last()) * 10 + (d.last() as nat - '0' as nat) as nat
    }
}

pub open spec fn is_digits(d: Seq<char>) -> bool {
    d.len() > 0 && forall|i: int| 0 <= i < d.len() ==> '0' <= #[trigger] d[i] <= '9'
}

/// `s` without one leading `+`, if it has one.
pub open spec fn unsigned_part(s: Seq<char>) -> Seq<char> {
    if s.len() > 0 && s[0] == '+' {
        s.drop_first()
    } else {
        s
    }
}

/// `s` read as an unsigned number: an optional `+`, then base-ten digits.
pub open spec fn unsigned_decimal(s: Seq<char>) -> Option<nat> {
    let d = unsigned_part(s);
    if is_digits(d) {
        Some(digits_value(d))
    } else {
        None
    }
}

/// `s` read as a `usize`: an optional `+`, then base-ten digits whose value fits.
pub open spec fn decimal_usize(s: Seq<char>) -> Option<usize> {
    match unsigned_decimal(s) {
        Some(v) => if v <= usize::MAX {
            Some(v as usize)
        } else {
            None
        },
        None => None,
    }
}

/// A segment that reads as a `usize` is an index; any other is a key.
pub open spec fn part_of_segment(seg: Seq<char>) -> PartView {
    match decimal_usize(seg) {
        Some(n) => PartView::Index(n),
        None => PartView::Key(seg),
    }
}

/// The path that the text `s` denotes, such as `order[2][name]`.
pub open spec fn parse_name(s: Seq<char>) -> Seq<PartView> {
    segments(s).map_values(|seg: Seq<char>| part_of_segment(seg))
}

pub open spec fn digit_char(d: nat) -> char {
    seq!['0', '1', '2', '3', '4', '5', '6', '7', '8', '9'][d as int % 10]
}

/// Base-ten digits of `n`, without leading zeros.
pub open spec fn decimal(n: nat) -> Seq<char>
    decreases n,
{
    if n < 10 {
        seq![digit_char(n)]
    } else {
        decimal(n / 10).push(digit_char(n % 10))
    }
}

/// A segment as it is written: an index or a later key in brackets, a leading key bare.
pub open spec fn render_part(p: PartView, leading: bool) -> Seq<char> {
    match p {
        PartView::Index(i) => seq!['['] + decimal(i as nat) + seq![']'],
        PartView::Key(k) => if leading {
            k
        } else {
            seq!['['] + k + seq![']']
        },
    }
}

/// The text of a path, such as `order[2][name]`.
pub open spec fn render_name(parts: Seq<PartView>) -> Seq<char>
    decreases parts.len(),
{
    if parts.len() == 0 {
        Seq::empty()
    } else {
        render_name(parts.drop_last()) + render_part(parts.last(), parts.len() == 1)
    }
}

/// Relies on `usize`'s `FromStr` (through `str::parse`): an optional `+`, then base-ten
/// digits whose value fits in `usize`; anything else is an error.
#[verifier::external_body]
fn parse_usize(s: &str) -> (r: Option<usize>)
    ensures
        r == decimal_usize(s@),
{
    s.parse::<usize>().ok()
}

/// Relies on `usize`'s `Display` (through `ToString::to_string`): base-ten digits, no sign,
/// no leading zeros.
#[verifier::external_body]
pub(crate) fn usize_text(n: usize) -> (r: String)
    ensures
        r@ == decimal(n as nat),
{
    n.to_string()
}

/// Relies on `String::leak`: the same characters, kept for the rest of the program.
#[verifier::external_body]
fn leak_string(s: String) -> (r: &'static str)
    ensures
        r@ == s@,
{
    s.leak()
}

/// The non-empty bracket-free runs of `s`, in order.
pub fn split_segments<'a>(s: &'a str) -> (r: Vec<&'a str>)
    ensures
        r@.map_values(|t: &'a str| t@) == segments(s@),
{
    let n = s.unicode_len();
    let mut out: Vec<&'a str> = Vec::new();
    let mut start: usize = 0;
    let mut i: usize = 0;
    while i < n
        invariant
            n == s@.len(),
            start <= i <= n,
            scan_segments(s@.take(i as int)) == (
                out@.map_values(|t: &'a str| t@),
                s@.subrange(start as int, i as int),
            ),
        decreases n - i,
    {
        let c = s.get_char(i);
        proof {
            assert(s@.take(i + 1).drop_last() =~= s@.take(i as int));
            assert(s@.take(i + 1).last() == c);
        }
        if c == '[' || c == ']' {
            if start < i {
                let seg = s.substring_char(start, i);
                proof {
                    assert(out@.push(seg).map_values(|t: &'a str| t@) =~= out@.map_values(
                        |t: &'a str| t@,
                    ).push(seg@));
                }
                out.push(seg);
            }
            start = i + 1;
            proof {
                assert(s@.subrange(start as int, i + 1) =~= Seq::<char>::empty());
            }
        } else {
            proof {
                assert(s@.subrange(start as int, i + 1) =~= s@.subrange(start as int, i as int).push(
                    c,
                ));
            }
        }
        i = i + 1;
    }
    proof {
        assert(s@.take(n as int) =~= s@);
    }
    if start < n {
        let seg = s.substring_char(start, n);
        proof {
            assert(out@.push(seg).map_values(|t: &'a str| t@) =~= out@.map_values(|t: &'a str| t@).push(
                seg@,
            ));
        }
        out.push(seg);
    }
    out
}

impl Name {
    /// The path that the text `s` denotes (`order[2][name]`: the key `order`, the index 2,
    /// the key `name`), or `None` where it has more segments than a path can hold.
    pub fn parse(s: &str) -> (r: Option<Name>)
        ensures
            r is Some <==> segments(s@).len() <= NAME_CAPACITY,
            r matches Some(n) ==> n@ == parse_name(s@),
    {
        let segs = split_segments(s);
        proof {
            assert(segs@.len() == segments(s@).len()) by {
                assert(segs@.map_values(|t: &str| t@).len() == segs@.len());
            }
        }
        if segs.len() > NAME_CAPACITY {
            return None;
        }
        let mut name = Name::new();
        let mut k: usize = 0;
        while k < segs.len()
            invariant
                segs@.len() <= NAME_CAPACITY,
                segs@.map_values(|t: &str| t@) == segments(s@),
                k <= segs@.len(),
                name@ == parse_name(s@).take(k as int),
            decreases segs.len() - k,
        {
            let seg = segs[k];
            proof {
                assert(segments(s@)[k as int] == seg@);
            }
            let part = match parse_usize(seg) {
                Some(index) => NamePart::Index(index),
                None => NamePart::Key(leak_string(seg.to_owned())),
            };
            assert(parse_name(s@).take(k + 1) =~= parse_name(s@).take(k as int).push(part@));
            name = name.push(part);
            k = k + 1;
        }
        assert(parse_name(s@).take(k as int) =~= parse_name(s@));
        Some(name)
    }

    /// The text of the path, as used for a form control's `name` and `id`.
    pub fn to_string(&self) -> (r: String)
        ensures
            r@ == render_name(self@),
    {
        let n = self.len();
        let mut out = String::new();
        let mut k: usize = 0;
        proof {
            reveal_strlit("[");
            reveal_strlit("]");
            assert("["@ =~= seq!['[']);
            assert("]"@ =~= seq![']']);
        }
        while k < n
            invariant
                "["@ == seq!['['],
                "]"@ == seq![']'],
                n == self@.len(),
                k <= n,
                out@ == render_name(self@.take(k as int)),
            decreases n - k,
        {
            let part = self.part(k);
            proof {
                assert(self@.take(k + 1).drop_last() =~= self@.take(k as int));
                assert(self@.take(k + 1).last() == part@);
                assert(render_name(self@.take(k + 1)) == render_name(self@.take(k as int))
                    + render_part(part@, k == 0));
            }
            match part {
                NamePart::Index(i) => {
                    out.append("[");
                    let digits = usize_text(i);
                    out.append(digits.as_str());
                    out.append("]");
                },
                NamePart::Key(key) => {
                    if k == 0 {
                        out.append(key);
                    } else {
                        out.append("[");
                        out.append(key);
                        out.append("]");
                    }
                },
            }
            assert(out@ =~= render_name(self@.take(k + 1)));
            k = k + 1;
        }
        assert(self@.take(n as int) =~= self@);
        out
    }
}

impl Default for Name {
    fn default() -> (r: Name)
        ensures
            r@ == Seq::<PartView>::empty(),
    {
        Name::new()
    }
}

} // verus!

verus! {

/// How a segment is written between brackets: an index in base ten, a key as it is.
pub open spec fn part_text(p: PartView) -> Seq<char> {
    match p {
        PartView::Index(i) => decimal(i as nat),
        PartView::Key(k) => k,
    }
}

/// A key that reads back as itself: not empty, without brackets, and not a number.
pub open spec fn is_plain_key(k: Seq<char>) -> bool {
    &&& k.len() > 0
    &&& forall|i: int| 0 <= i < k.len() ==> !is_bracket(#[trigger] k[i])
    &&& decimal_usize(k) is None
}

/// Every key of `parts` is plain.
pub open spec fn has_plain_keys(parts: Seq<PartView>) -> bool {
    forall|i: int|
        0 <= i < parts.len() ==> (#[trigger] parts[i] matches PartView::Key(k) ==> is_plain_key(k))
}

proof fn lemma_scan_run(s: Seq<char>, k: Seq<char>)
    requires
        forall|i: int| 0 <= i < k.len() ==> !is_bracket(#[trigger] k[i]),
    ensures
        scan_segments(s + k) == (scan_segments(s).0, scan_segments(s).1 + k),
    decreases k.len(),
{
    if k.len() == 0 {
        assert(s + k =~= s);
        assert(scan_segments(s).1 + k =~= scan_segments(s).1);
    } else {
        let k0 = k.drop_last();
        lemma_scan_run(s, k0);
        assert((s + k).drop_last() =~= s + k0);
        assert((s + k).last() == k.last());
        assert(scan_segments(s).1 + k0.push(k.last()) =~= scan_segments(s).1 + k);
        assert(k0.push(k.last()) =~= k);
    }
}

proof fn lemma_scan_bracketed(s: Seq<char>, k: Seq<char>)
    requires
        k.len() > 0,
        forall|i: int| 0 <= i < k.len() ==> !is_bracket(#[trigger] k[i]),
    ensures
        scan_segments(s + (seq!['['] + k + seq![']'])) == ({
            let (done, cur) = scan_segments(s);
            if cur.len() > 0 {
                (done.push(cur).push(k), Seq::<char>::empty())
            } else {
                (done.push(k), Seq::<char>::empty())
            }
        }),
{
    let open = s.push('[');
    assert(open.drop_last() =~= s);
    lemma_scan_run(open, k);
    let body = open + k;
    let all = body.push(']');
    assert(all.drop_last() =~= body);
    assert(scan_segments(open).1 =~= Seq::<char>::empty());
    assert(Seq::<char>::empty() + k =~= k);
    assert(s + (seq!['['] + k + seq![']']) =~= all);
}

proof fn lemma_digit_value(d: nat)
    requires
        d < 10,
    ensures
        '0' <= digit_char(d) <= '9',
        digit_char(d) as nat - '0' as nat == d,
{
    if d == 0 {
        assert(digit_char(d) == '0');
    } else if d == 1 {
        assert(digit_char(d) == '1');
    } else if d == 2 {
        assert(digit_char(d) == '2');
    } else if d == 3 {
        assert(digit_char(d) == '3');
    } else if d == 4 {
        assert(digit_char(d) == '4');
    } else if d == 5 {
        assert(digit_char(d) == '5');
    } else if d == 6 {
        assert(digit_char(d) == '6');
    } else if d == 7 {
        assert(digit_char(d) == '7');
    } else if d == 8 {
        assert(digit_char(d) == '8');
    } else {
        assert(digit_char(d) == '9');
    }
}

proof fn lemma_decimal_digits(n: nat)
    ensures
        is_digits(decimal(n)),
        digits_value(decimal(n)) == n,
        !is_bracket(decimal(n)[0]),
    decreases n,
{
    if n < 10 {
        lemma_digit_value(n);
        assert(decimal(n).drop_last() =~= Seq::<char>::empty());
        assert(decimal(n).last() == digit_char(n));
        assert(digits_value(decimal(n)) == digits_value(Seq::<char>::empty()) * 10 + (digit_char(
            n,
        ) as nat - '0' as nat) as nat);
    } else {
        lemma_decimal_digits(n / 10);
        lemma_digit_value(n % 10);
        let d = decimal(n);
        assert(d.drop_last() =~= decimal(n / 10));
        assert(d.last() == digit_char(n % 10));
        assert(digits_value(d) == digits_value(decimal(n / 10)) * 10 + (digit_char(n % 10) as nat
            - '0' as nat) as nat);
        assert((n / 10) * 10 + n % 10 == n) by (nonlinear_arith);
        assert forall|i: int| 0 <= i < d.len() implies '0' <= #[trigger] d[i] <= '9' by {
            if i < d.len() - 1 {
                assert(d[i] == decimal(n / 10)[i]);
            }
        }
    }
}

proof fn lemma_index_reads_back(i: usize)
    ensures
        part_of_segment(decimal(i as nat)) == PartView::Index(i),
        decimal(i as nat).len() > 0,
        forall|j: int| 0 <= j < decimal(i as nat).len() ==> !is_bracket(#[trigger] decimal(i as nat)[j]),
{
    lemma_decimal_digits(i as nat);
    assert(unsigned_part(decimal(i as nat)) == decimal(i as nat));
}

/// What reading the text of `parts` leaves: a leading key alone is still being read; in
/// every other case, all segments are complete.
proof fn lemma_render_scan(parts: Seq<PartView>)
    requires
        has_plain_keys(parts),
    ensures
        scan_segments(render_name(parts)) == (if parts.len() == 1 && parts[0] is Key {
            (Seq::<Seq<char>>::empty(), part_text(parts[0]))
        } else {
            (parts.map_values(|p: PartView| part_text(p)), Seq::<char>::empty())
        }),
    decreases parts.len(),
{
    if parts.len() == 0 {
        assert(parts.map_values(|p: PartView| part_text(p)) =~= Seq::<Seq<char>>::empty());
    } else {
        let q = parts.drop_last();
        let p = parts.last();
        assert(has_plain_keys(q)) by {
            assert forall|i: int| 0 <= i < q.len() implies (#[trigger] q[i] matches PartView::Key(k)
                ==> is_plain_key(k)) by {
                assert(q[i] == parts[i]);
            }
        }
        lemma_render_scan(q);
        assert(parts[parts.len() - 1] == p);
        let text = part_text(p);
        assert(text.len() > 0 && forall|j: int| 0 <= j < text.len() ==> !is_bracket(#[trigger] text[j])) by {
            match p {
                PartView::Index(i) => {
                    lemma_index_reads_back(i);
                },
                PartView::Key(k) => {},
            }
        }
        let mapped = parts.map_values(|p: PartView| part_text(p));
        let q_mapped = q.map_values(|p: PartView| part_text(p));
        assert(mapped =~= q_mapped.push(text));
        if q.len() == 0 {
            assert(render_name(q) =~= Seq::<char>::empty());
            match p {
                PartView::Key(k) => {
                    lemma_scan_run(Seq::<char>::empty(), k);
                    assert(Seq::<char>::empty() + k =~= k);
                    assert(render_name(parts) =~= k);
                },
                PartView::Index(i) => {
                    lemma_scan_bracketed(Seq::<char>::empty(), text);
                    assert(render_name(parts) =~= Seq::<char>::empty() + (seq!['['] + text
                        + seq![']']));
                    assert(q_mapped =~= Seq::<Seq<char>>::empty());
                },
            }
        } else {
            lemma_scan_bracketed(render_name(q), text);
            assert(render_part(p, false) =~= seq!['['] + text + seq![']']) by {
                match p {
                    PartView::Index(i) => {},
                    PartView::Key(k) => {},
                }
            }
            if q.len() == 1 && q[0] is Key {
                assert(q_mapped =~= seq![part_text(q[0])]);
                assert(Seq::<Seq<char>>::empty().push(part_text(q[0])) =~= q_mapped);
            }
        }
    }
}

/// The text of a name reads back as the same name, provided its keys are plain (not empty,
/// without brackets, and not numbers): the text has as many segments as the name has
/// parts, so it fits in a name, and each segment reads as the part it was written from.
pub proof fn lemma_text_reads_back(n: Name)
    requires
        has_plain_keys(n@),
    ensures
        segments(render_name(n@)).len() == n@.len(),
        parse_name(render_name(n@)) == n@,
{
    let parts = n@;
    lemma_render_scan(parts);
    let mapped = parts.map_values(|p: PartView| part_text(p));
    assert(segments(render_name(parts)) =~= mapped) by {
        if parts.len() == 1 && parts[0] is Key {
            assert(mapped =~= seq![part_text(parts[0])]);
            assert(Seq::<Seq<char>>::empty().push(part_text(parts[0])) =~= mapped);
        }
    }
    assert forall|i: int| 0 <= i < parts.len() implies part_of_segment(#[trigger] mapped[i])
        == parts[i] by {
        match parts[i] {
            PartView::Index(j) => {
                lemma_index_reads_back(j);
            },
            PartView::Key(k) => {
                assert(is_plain_key(k));
            },
        }
    }
    assert(parse_name(render_name(parts)) =~= parts);
}

} // verus!
