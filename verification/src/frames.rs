use vstd::prelude::*;

verus! {

/// A resolved source location. Every field is optional because debug
/// information may be partial. Names and file paths are kept as raw bytes,
/// exactly as they are later written into the artifact's string table.
pub struct Symbol {
    /// Demangled function name, or the sentinel `b"??"` when unresolved.
    pub name: Option<Vec<u8>>,
    /// Source file path.
    pub file: Option<Vec<u8>>,
    /// 1-based line number; absent when unknown.
    pub line: Option<u64>,
}

/// The mathematical value of a `Symbol`.
pub struct SymbolView {
    pub name: Option<Seq<u8>>,
    pub file: Option<Seq<u8>>,
    pub line: Option<u64>,
}

impl View for Symbol {
    type V = SymbolView;

    open spec fn view(&self) -> SymbolView {
        SymbolView {
            name: match self.name {
                Some(n) => Some(n@),
                None => None,
            },
            file: match self.file {
                Some(f) => Some(f@),
                None => None,
            },
            line: self.line,
        }
    }
}

/// An ordered sequence of symbols from leaf (innermost) to root.
/// The sampler currently produces single-element frames; the model permits
/// multi-element frames once guest unwinding is wired in.
pub struct Frame {
    pub stacks: Vec<Symbol>,
}

/// The mathematical value of a `Frame`: its symbols, leaf first.
pub type FrameView = Seq<SymbolView>;

impl View for Frame {
    type V = FrameView;

    open spec fn view(&self) -> FrameView {
        self.stacks@.map_values(|s: Symbol| s@)
    }
}

/// Byte-wise equality of two byte vectors, decided by their views.
pub fn bytes_eq(a: &Vec<u8>, b: &Vec<u8>) -> (r: bool)
    ensures
        r == (a@ == b@),
{
    if a.len() != b.len() {
        proof {
            assert(a@.len() != b@.len());
            if a@ == b@ {
                assert(a@.len() == b@.len());
            }
        }
        return false;
    }
    let n = a.len();
    let mut i: usize = 0;
    while i < n
        invariant
            n == a@.len(),
            n == b@.len(),
            i <= n,
            forall|j: int| 0 <= j < i ==> a@[j] == b@[j],
        decreases n - i,
    {
        if a[i] != b[i] {
            proof {
                if a@ == b@ {
                    assert(a@[i as int] == b@[i as int]);
                }
            }
            return false;
        }
        i += 1;
    }
    proof {
        assert(a@ =~= b@);
    }
    true
}

/// Equality of two optional byte vectors, decided by their views.
pub fn opt_bytes_eq(a: &Option<Vec<u8>>, b: &Option<Vec<u8>>) -> (r: bool)
    ensures
        r == ((match a {
            Some(x) => Some(x@),
            None => None,
        }) == (match b {
            Some(y) => Some(y@),
            None => None,
        })),
{
    match (a, b) {
        (None, None) => true,
        (Some(x), Some(y)) => bytes_eq(x, y),
        _ => false,
    }
}

/// Structural equality of two symbols: field-wise, decided by their views.
pub fn symbol_eq(a: &Symbol, b: &Symbol) -> (r: bool)
    ensures
        r == (a@ == b@),
{
    let name_ok = opt_bytes_eq(&a.name, &b.name);
    let file_ok = opt_bytes_eq(&a.file, &b.file);
    let line_ok = match (a.line, b.line) {
        (None, None) => true,
        (Some(x), Some(y)) => x == y,
        _ => false,
    };
    name_ok && file_ok && line_ok
}

/// Structural equality of two frames: element-wise on their symbols.
pub fn frame_eq(a: &Frame, b: &Frame) -> (r: bool)
    ensures
        r == (a@ == b@),
{
    if a.stacks.len() != b.stacks.len() {
        proof {
            assert(a@.len() != b@.len());
            if a@ == b@ {
                assert(a@.len() == b@.len());
            }
        }
        return false;
    }
    let n = a.stacks.len();
    let mut i: usize = 0;
    while i < n
        invariant
            n == a.stacks@.len(),
            n == b.stacks@.len(),
            i <= n,
            forall|j: int| 0 <= j < i ==> a@[j] == b@[j],
        decreases n - i,
    {
        if !symbol_eq(&a.stacks[i], &b.stacks[i]) {
            proof {
                assert(a@[i as int] != b@[i as int]);
                if a@ == b@ {
                    assert(a@[i as int] == b@[i as int]);
                }
            }
            return false;
        }
        i += 1;
    }
    proof {
        assert(a@ =~= b@);
    }
    true
}

/// The number of string-table entries one symbol contributes to the
/// artifact: one for a present name, one for a present file.
pub open spec fn sym_strc(s: SymbolView) -> int {
    (if s.name is Some {
        1int
    } else {
        0int
    }) + (if s.file is Some {
        1int
    } else {
        0int
    })
}

/// The number of string-table entries a frame contributes.
pub open spec fn frame_strc(f: FrameView) -> int
    decreases f.len(),
{
    if f.len() == 0 {
        0
    } else {
        sym_strc(f.first()) + frame_strc(f.drop_first())
    }
}

/// The total of all occurrence counts in a report's entries.
pub open spec fn sum_counts(s: Seq<(FrameView, u64)>) -> int
    decreases s.len(),
{
    if s.len() == 0 {
        0
    } else {
        sum_counts(s.drop_last()) + s.last().1
    }
}

/// The total number of symbols over a report's entries.
pub open spec fn sum_syms(s: Seq<(FrameView, u64)>) -> int
    decreases s.len(),
{
    if s.len() == 0 {
        0
    } else {
        sum_syms(s.drop_last()) + s.last().0.len()
    }
}

/// The total number of string-table entries contributed by a report's
/// entries.
pub open spec fn sum_strs(s: Seq<(FrameView, u64)>) -> int
    decreases s.len(),
{
    if s.len() == 0 {
        0
    } else {
        sum_strs(s.drop_last()) + frame_strc(s.last().0)
    }
}

/// Whether some entry carries the given frame.
pub open spec fn has_key(s: Seq<(FrameView, u64)>, k: FrameView) -> bool
    decreases s.len(),
{
    if s.len() == 0 {
        false
    } else {
        s.first().0 == k || has_key(s.drop_first(), k)
    }
}

/// The occurrence count recorded for a frame: the count of the first entry
/// carrying it, or zero when none does.
pub open spec fn count_of(s: Seq<(FrameView, u64)>, k: FrameView) -> int
    decreases s.len(),
{
    if s.len() == 0 {
        0
    } else if s.first().0 == k {
        s.first().1 as int
    } else {
        count_of(s.drop_first(), k)
    }
}

/// No two entries carry the same frame.
pub open spec fn distinct_keys(s: Seq<(FrameView, u64)>) -> bool {
    forall|i: int, j: int| 0 <= i < j < s.len() ==> s[i].0 != s[j].0
}

/// What recording one occurrence of `k` does to the entries: the first
/// entry carrying `k` is incremented by one, or a fresh entry at count one
/// is appended when none carries it.
pub open spec fn spec_record(s: Seq<(FrameView, u64)>, k: FrameView) -> Seq<(FrameView, u64)>
    decreases s.len(),
{
    if s.len() == 0 {
        seq![(k, 1u64)]
    } else if s.first().0 == k {
        seq![(s.first().0, ((s.first().1 + 1) as u64))] + s.drop_first()
    } else {
        seq![s.first()] + spec_record(s.drop_first(), k)
    }
}

pub proof fn lemma_sum_counts_cons(x: (FrameView, u64), s: Seq<(FrameView, u64)>)
    ensures
        sum_counts(seq![x] + s) == x.1 + sum_counts(s),
    decreases s.len(),
{
    if s.len() == 0 {
        assert((seq![x] + s).drop_last() =~= Seq::<(FrameView, u64)>::empty());
        assert((seq![x] + s).last() == x);
        assert(sum_counts(Seq::<(FrameView, u64)>::empty()) == 0);
    } else {
        assert((seq![x] + s).drop_last() =~= seq![x] + s.drop_last());
        assert((seq![x] + s).last() == s.last());
        lemma_sum_counts_cons(x, s.drop_last());
    }
}

pub proof fn lemma_sum_syms_cons(x: (FrameView, u64), s: Seq<(FrameView, u64)>)
    ensures
        sum_syms(seq![x] + s) == x.0.len() + sum_syms(s),
    decreases s.len(),
{
    if s.len() == 0 {
        assert((seq![x] + s).drop_last() =~= Seq::<(FrameView, u64)>::empty());
        assert((seq![x] + s).last() == x);
        assert(sum_syms(Seq::<(FrameView, u64)>::empty()) == 0);
    } else {
        assert((seq![x] + s).drop_last() =~= seq![x] + s.drop_last());
        assert((seq![x] + s).last() == s.last());
        lemma_sum_syms_cons(x, s.drop_last());
    }
}

pub proof fn lemma_sum_strs_cons(x: (FrameView, u64), s: Seq<(FrameView, u64)>)
    ensures
        sum_strs(seq![x] + s) == frame_strc(x.0) + sum_strs(s),
    decreases s.len(),
{
    if s.len() == 0 {
        assert((seq![x] + s).drop_last() =~= Seq::<(FrameView, u64)>::empty());
        assert((seq![x] + s).last() == x);
        assert(sum_strs(Seq::<(FrameView, u64)>::empty()) == 0);
    } else {
        assert((seq![x] + s).drop_last() =~= seq![x] + s.drop_last());
        assert((seq![x] + s).last() == s.last());
        lemma_sum_strs_cons(x, s.drop_last());
    }
}

/// Symbol totals are never negative.
pub proof fn lemma_sum_syms_nonneg(s: Seq<(FrameView, u64)>)
    ensures
        sum_syms(s) >= 0,
    decreases s.len(),
{
    if s.len() > 0 {
        lemma_sum_syms_nonneg(s.drop_last());
    }
}

/// String totals are never negative.
pub proof fn lemma_sum_strs_nonneg(s: Seq<(FrameView, u64)>)
    ensures
        sum_strs(s) >= 0,
    decreases s.len(),
{
    if s.len() > 0 {
        lemma_sum_strs_nonneg(s.drop_last());
        lemma_frame_strc_nonneg(s.last().0);
    }
}

/// A recorded count never exceeds the total of all counts.
pub proof fn lemma_count_le_sum(s: Seq<(FrameView, u64)>, k: FrameView)
    ensures
        0 <= count_of(s, k) <= sum_counts(s),
    decreases s.len(),
{
    if s.len() == 0 {
    } else {
        assert(s =~= seq![s.first()] + s.drop_first());
        lemma_sum_counts_cons(s.first(), s.drop_first());
        lemma_count_le_sum(s.drop_first(), k);
    }
}

/// Recording one occurrence raises the totals by exactly one occurrence,
/// one frame's worth of symbols when the frame is new, and one frame's
/// worth of strings when the frame is new.
pub proof fn lemma_record_sums(s: Seq<(FrameView, u64)>, k: FrameView)
    requires
        count_of(s, k) < u64::MAX,
    ensures
        sum_counts(spec_record(s, k)) == sum_counts(s) + 1,
        sum_syms(spec_record(s, k)) == sum_syms(s) + (if has_key(s, k) {
            0int
        } else {
            k.len() as int
        }),
        sum_strs(spec_record(s, k)) == sum_strs(s) + (if has_key(s, k) {
            0int
        } else {
            frame_strc(k)
        }),
    decreases s.len(),
{
    if s.len() == 0 {
        assert(spec_record(s, k) =~= seq![(k, 1u64)]);
        assert(seq![(k, 1u64)].drop_last() =~= Seq::<(FrameView, u64)>::empty());
        assert(sum_counts(Seq::<(FrameView, u64)>::empty()) == 0);
        assert(sum_syms(Seq::<(FrameView, u64)>::empty()) == 0);
        assert(sum_strs(Seq::<(FrameView, u64)>::empty()) == 0);
    } else if s.first().0 == k {
        let x = (s.first().0, ((s.first().1 + 1) as u64));
        lemma_sum_counts_cons(x, s.drop_first());
        lemma_sum_syms_cons(x, s.drop_first());
        lemma_sum_strs_cons(x, s.drop_first());
        assert(s =~= seq![s.first()] + s.drop_first());
        lemma_sum_counts_cons(s.first(), s.drop_first());
        lemma_sum_syms_cons(s.first(), s.drop_first());
        lemma_sum_strs_cons(s.first(), s.drop_first());
    } else {
        lemma_record_sums(s.drop_first(), k);
        lemma_sum_counts_cons(s.first(), spec_record(s.drop_first(), k));
        lemma_sum_syms_cons(s.first(), spec_record(s.drop_first(), k));
        lemma_sum_strs_cons(s.first(), spec_record(s.drop_first(), k));
        assert(s =~= seq![s.first()] + s.drop_first());
        lemma_sum_counts_cons(s.first(), s.drop_first());
        lemma_sum_syms_cons(s.first(), s.drop_first());
        lemma_sum_strs_cons(s.first(), s.drop_first());
    }
}

/// Counts are monotonic under recording: the recorded frame's count rises
/// by exactly one, every other frame's count is unchanged.
pub proof fn lemma_record_counts(s: Seq<(FrameView, u64)>, k: FrameView, k2: FrameView)
    requires
        count_of(s, k) < u64::MAX,
    ensures
        count_of(spec_record(s, k), k) == count_of(s, k) + 1,
        k2 != k ==> count_of(spec_record(s, k), k2) == count_of(s, k2),
    decreases s.len(),
{
    if s.len() == 0 {
        assert(spec_record(s, k) =~= seq![(k, 1u64)]);
        assert(count_of(seq![(k, 1u64)], k) == 1);
        if k2 != k {
            assert(seq![(k, 1u64)].drop_first() =~= Seq::<(FrameView, u64)>::empty());
            assert(count_of(Seq::<(FrameView, u64)>::empty(), k2) == 0);
        }
    } else if s.first().0 == k {
        let r = spec_record(s, k);
        lemma_count_le_sum(s, k);
        assert(r.first() == (s.first().0, ((s.first().1 + 1) as u64)));
        assert(r.drop_first() =~= s.drop_first());
    } else {
        lemma_record_counts(s.drop_first(), k, k2);
        let r = spec_record(s, k);
        assert(r.first() == s.first());
        assert(r.drop_first() =~= spec_record(s.drop_first(), k));
    }
}

/// Recording preserves well-formed entries: distinct frames and positive
/// counts.
pub proof fn lemma_record_wf(s: Seq<(FrameView, u64)>, k: FrameView)
    requires
        distinct_keys(s),
        forall|i: int| 0 <= i < s.len() ==> (#[trigger] s[i]).1 >= 1,
        count_of(s, k) < u64::MAX,
    ensures
        distinct_keys(spec_record(s, k)),
        forall|i: int| 0 <= i < spec_record(s, k).len() ==> (#[trigger] spec_record(s, k)[i]).1
            >= 1,
        spec_record(s, k).len() == (if has_key(s, k) {
            s.len() as int
        } else {
            s.len() + 1int
        }),
        forall|i: int| 0 <= i < spec_record(s, k).len() ==> (#[trigger] spec_record(s, k)[i]).0
            == (if i < s.len() {
            s[i].0
        } else {
            k
        }),
    decreases s.len(),
{
    if s.len() == 0 {
        assert(spec_record(s, k) =~= seq![(k, 1u64)]);
    } else if s.first().0 == k {
        let r = spec_record(s, k);
        assert(r =~= seq![(s.first().0, ((s.first().1 + 1) as u64))] + s.drop_first());
        assert forall|i: int| 0 <= i < r.len() implies (#[trigger] r[i]).0 == s[i].0 by {
            if i > 0 {
                assert(r[i] == s.drop_first()[i - 1]);
            }
        }
    } else {
        assert(forall|j: int|
            0 <= j < s.drop_first().len() ==> (#[trigger] s.drop_first()[j]) == s[j + 1]);
        lemma_record_wf(s.drop_first(), k);
        let r = spec_record(s, k);
        assert(r =~= seq![s.first()] + spec_record(s.drop_first(), k));
        let rr = spec_record(s.drop_first(), k);
        assert forall|i: int| 0 <= i < r.len() implies (#[trigger] r[i]).0 == (if i < s.len() {
            s[i].0
        } else {
            k
        }) by {
            if i > 0 {
                assert(r[i] == rr[i - 1]);
            }
        }
        assert forall|i: int, j: int| 0 <= i < j < r.len() implies r[i].0 != r[j].0 by {
            assert(r[i].0 == (if i < s.len() {
                s[i].0
            } else {
                k
            }));
            assert(r[j].0 == (if j < s.len() {
                s[j].0
            } else {
                k
            }));
            if j >= s.len() {
                assert(!has_key(s, k));
                lemma_not_has_key_differs(s, k, i);
            }
        }
    }
}

/// When no entry carries `k`, no entry's frame equals `k`.
pub proof fn lemma_not_has_key_differs(s: Seq<(FrameView, u64)>, k: FrameView, i: int)
    requires
        !has_key(s, k),
        0 <= i < s.len(),
    ensures
        s[i].0 != k,
    decreases s.len(),
{
    if i > 0 {
        lemma_not_has_key_differs(s.drop_first(), k, i - 1);
    }
}

/// When an entry carries `k`, `has_key` holds.
pub proof fn lemma_match_has_key(s: Seq<(FrameView, u64)>, k: FrameView, i: int)
    requires
        0 <= i < s.len(),
        s[i].0 == k,
    ensures
        has_key(s, k),
    decreases s.len(),
{
    if i > 0 {
        lemma_match_has_key(s.drop_first(), k, i - 1);
    }
}

/// Bridging lemma for the in-place update the implementation performs:
/// when the first entry carrying `k` stands at `i`, recording is the
/// update of that entry's count.
pub proof fn lemma_record_is_update(s: Seq<(FrameView, u64)>, k: FrameView, i: int)
    requires
        0 <= i < s.len(),
        s[i].0 == k,
        forall|j: int| 0 <= j < i ==> (#[trigger] s[j]).0 != k,
    ensures
        spec_record(s, k) =~= s.update(i, (s[i].0, ((s[i].1 + 1) as u64))),
        count_of(s, k) == s[i].1,
    decreases i,
{
    if i == 0 {
        assert(spec_record(s, k) == seq![(s.first().0, ((s.first().1 + 1) as u64))]
            + s.drop_first());
    } else {
        assert(forall|j: int|
            0 <= j < s.drop_first().len() ==> (#[trigger] s.drop_first()[j]) == s[j + 1]);
        lemma_record_is_update(s.drop_first(), k, i - 1);
        assert(spec_record(s, k) == seq![s.first()] + spec_record(s.drop_first(), k));
        assert(seq![s.first()] + s.drop_first().update(i - 1, (s[i].0, ((s[i].1 + 1) as u64)))
            =~= s.update(i, (s[i].0, ((s[i].1 + 1) as u64))));
    }
}

/// Bridging lemma for the append the implementation performs: when no
/// entry carries `k`, recording is the push of a fresh entry at one.
pub proof fn lemma_record_is_push(s: Seq<(FrameView, u64)>, k: FrameView)
    requires
        forall|j: int| 0 <= j < s.len() ==> (#[trigger] s[j]).0 != k,
    ensures
        spec_record(s, k) =~= s.push((k, 1u64)),
        count_of(s, k) == 0,
        !has_key(s, k),
    decreases s.len(),
{
    if s.len() > 0 {
        assert(forall|j: int|
            0 <= j < s.drop_first().len() ==> (#[trigger] s.drop_first()[j]) == s[j + 1]);
        lemma_record_is_push(s.drop_first(), k);
        assert(spec_record(s, k) == seq![s.first()] + spec_record(s.drop_first(), k));
        assert(seq![s.first()] + s.drop_first().push((k, 1u64)) =~= s.push((k, 1u64)));
    }
}

/// The in-memory aggregate of frames to occurrence counts.
///
/// The entries are held as two parallel vectors (frames and counts) so that
/// the tick path only ever compares, increments, or appends. The running
/// totals are maintained so that serialization can assign identifiers
/// without re-summing.
pub struct Report {
    keys: Vec<Frame>,
    counts: Vec<u64>,
    total: u64,
    sym_total: u64,
    str_total: u64,
}

impl View for Report {
    type V = Seq<(FrameView, u64)>;

    closed spec fn view(&self) -> Seq<(FrameView, u64)> {
        Seq::new(self.keys@.len(), |i: int| (self.keys@[i]@, self.counts@[i]))
    }
}

impl Report {
    /// The number of occurrences recorded so far.
    pub closed spec fn total(&self) -> u64 {
        self.total
    }

    /// The number of symbols over all distinct frames.
    pub closed spec fn sym_total(&self) -> u64 {
        self.sym_total
    }

    /// The number of string-table entries all distinct frames contribute.
    pub closed spec fn str_total(&self) -> u64 {
        self.str_total
    }

    /// Well-formedness: distinct frames, every count at least one, and the
    /// running totals agree with the entries.
    pub closed spec fn wf(&self) -> bool {
        &&& self.keys@.len() == self.counts@.len()
        &&& distinct_keys(self@)
        &&& forall|i: int| 0 <= i < self@.len() ==> (#[trigger] self@[i]).1 >= 1
        &&& self.total as int == sum_counts(self@)
        &&& self.sym_total as int == sum_syms(self@)
        &&& self.str_total as int == sum_strs(self@)
        &&& self.str_total <= u64::MAX - 3
    }

    /// What well-formedness guarantees about the running totals.
    pub proof fn lemma_wf_sums(&self)
        requires
            self.wf(),
        ensures
            self.total() as int == sum_counts(self@),
            self.sym_total() as int == sum_syms(self@),
            self.str_total() as int == sum_strs(self@),
            self.str_total() <= u64::MAX - 3,
    {
    }

    /// A fresh, empty report.
    pub fn new() -> (r: Report)
        ensures
            r.wf(),
            r@ =~= Seq::<(FrameView, u64)>::empty(),
            r.total() == 0,
    {
        let r = Report {
            keys: Vec::new(),
            counts: Vec::new(),
            total: 0,
            sym_total: 0,
            str_total: 0,
        };
        proof {
            assert(r@ =~= Seq::<(FrameView, u64)>::empty());
        }
        r
    }

    /// The number of distinct frames.
    pub fn len(&self) -> (r: usize)
        requires
            self.wf(),
        ensures
            r == self@.len(),
    {
        self.keys.len()
    }

    /// The recorded occurrence total, as a value.
    pub fn total_count(&self) -> (r: u64)
        ensures
            r == self.total(),
    {
        self.total
    }

    /// The symbol total, as a value.
    pub fn sym_count(&self) -> (r: u64)
        ensures
            r == self.sym_total(),
    {
        self.sym_total
    }

    /// The string total, as a value.
    pub fn str_count(&self) -> (r: u64)
        ensures
            r == self.str_total(),
    {
        self.str_total
    }

    /// The frame of the entry at `i`.
    pub fn frame_at(&self, i: usize) -> (r: &Frame)
        requires
            self.wf(),
            i < self@.len(),
        ensures
            r@ == self@[i as int].0,
    {
        &self.keys[i]
    }

    /// The count of the entry at `i`.
    pub fn count_at(&self, i: usize) -> (r: u64)
        requires
            self.wf(),
            i < self@.len(),
        ensures
            r == self@[i as int].1,
    {
        self.counts[i]
    }

    /// Record one occurrence of `frame`: its count rises by exactly one,
    /// every other frame's count is unchanged, and no entry is ever
    /// removed. The bounds in `requires` only keep the machine-width
    /// totals from wrapping.
    pub fn record(&mut self, frame: Frame)
        requires
            old(self).wf(),
            old(self).total() < u64::MAX,
            sum_syms(old(self)@) + frame@.len() <= u64::MAX,
            sum_strs(old(self)@) + frame_strc(frame@) <= u64::MAX - 3,
        ensures
            final(self).wf(),
            final(self)@ == spec_record(old(self)@, frame@),
            final(self).total() == old(self).total() + 1,
            count_of(final(self)@, frame@) == count_of(old(self)@, frame@) + 1,
            forall|k2: FrameView| k2 != frame@ ==> count_of(final(self)@, k2) == count_of(
                old(self)@,
                k2,
            ),
    {
        let ghost s0 = self@;
        let n = self.keys.len();
        let mut i: usize = 0;
        while i < n
            invariant
                *self == *old(self),
                s0 == self@,
                n == self.keys@.len(),
                self.wf(),
                self.total() < u64::MAX,
                sum_syms(self@) + frame@.len() <= u64::MAX,
                sum_strs(self@) + frame_strc(frame@) <= u64::MAX - 3,
                i <= n,
                forall|j: int| 0 <= j < i ==> (#[trigger] self@[j]).0 != frame@,
            decreases n - i,
        {
            if frame_eq(&self.keys[i], &frame) {
                proof {
                    lemma_record_is_update(s0, frame@, i as int);
                    lemma_count_le_sum(s0, frame@);
                    lemma_match_has_key(s0, frame@, i as int);
                    lemma_record_sums(s0, frame@);
                    lemma_record_wf(s0, frame@);
                    lemma_record_counts(s0, frame@, frame@);
                }
                let c = self.counts[i];
                self.counts[i] = c + 1;
                self.total = self.total + 1;
                proof {
                    assert(self@ =~= spec_record(s0, frame@));
                    assert forall|k2: FrameView| k2 != frame@ implies count_of(self@, k2)
                        == count_of(s0, k2) by {
                        lemma_record_counts(s0, frame@, k2);
                    }
                }
                return ;
            }
            i += 1;
        }
        proof {
            lemma_record_is_push(s0, frame@);
            lemma_count_le_sum(s0, frame@);
            lemma_record_sums(s0, frame@);
            lemma_record_wf(s0, frame@);
            lemma_record_counts(s0, frame@, frame@);
        }
        let flen = frame.stacks.len();
        let fstr = frame_str_count(&frame);
        self.keys.push(frame);
        self.counts.push(1);
        self.total = self.total + 1;
        self.sym_total = self.sym_total + (flen as u64);
        self.str_total = self.str_total + fstr;
        proof {
            assert(self@ =~= spec_record(s0, frame@));
            assert forall|k2: FrameView| k2 != frame@ implies count_of(self@, k2) == count_of(
                s0,
                k2,
            ) by {
                lemma_record_counts(s0, frame@, k2);
            }
        }
    }
}

/// The number of string-table entries a frame contributes, as a value.
pub fn frame_str_count(frame: &Frame) -> (r: u64)
    requires
        frame_strc(frame@) <= u64::MAX,
    ensures
        r == frame_strc(frame@),
{
    let n = frame.stacks.len();
    let mut i: usize = 0;
    let mut r: u64 = 0;
    while i < n
        invariant
            n == frame.stacks@.len(),
            i <= n,
            r == frame_strc(frame@.take(i as int)),
            frame_strc(frame@) <= u64::MAX,
        decreases n - i,
    {
        proof {
            lemma_frame_strc_take_step(frame@, i as int);
            lemma_frame_strc_prefix_le(frame@, i + 1);
        }
        let s = &frame.stacks[i];
        if s.name.is_some() {
            r = r + 1;
        }
        if s.file.is_some() {
            r = r + 1;
        }
        i += 1;
    }
    proof {
        assert(frame@.take(n as int) =~= frame@);
    }
    r
}

/// Extending a frame prefix by one symbol adds that symbol's string count.
pub proof fn lemma_frame_strc_take_step(f: FrameView, i: int)
    requires
        0 <= i < f.len(),
    ensures
        frame_strc(f.take(i + 1)) == frame_strc(f.take(i)) + sym_strc(f[i]),
    decreases i,
{
    if i == 0 {
        assert(f.take(1).drop_first() =~= f.take(0));
        assert(f.take(0) =~= Seq::<SymbolView>::empty());
    } else {
        assert(f.take(i + 1).drop_first() =~= f.drop_first().take(i));
        assert(f.take(i).drop_first() =~= f.drop_first().take(i - 1));
        lemma_frame_strc_take_step(f.drop_first(), i - 1);
    }
}

/// A frame prefix contributes no more strings than the whole frame.
pub proof fn lemma_frame_strc_prefix_le(f: FrameView, i: int)
    requires
        0 <= i <= f.len(),
    ensures
        0 <= frame_strc(f.take(i)) <= frame_strc(f),
    decreases f.len() + f.len() - i,
{
    if i < f.len() {
        lemma_frame_strc_take_step(f, i);
        lemma_frame_strc_prefix_le(f, i + 1);
        lemma_frame_strc_nonneg(f.take(i));
    } else {
        assert(f.take(i) =~= f);
        lemma_frame_strc_nonneg(f);
    }
}

/// String counts are never negative.
pub proof fn lemma_frame_strc_nonneg(f: FrameView)
    ensures
        frame_strc(f) >= 0,
    decreases f.len(),
{
    if f.len() > 0 {
        lemma_frame_strc_nonneg(f.drop_first());
    }
}

} // verus!
