use vstd::prelude::*;
use crate::entry::{Entry, is_document, is_shown};

verus! {

/// What the caller does next while walking a frame's tree.
#[derive(PartialEq, Eq, Structural, Clone, Copy, Debug)]
pub enum Step {
    /// Show a collapsible node for the directory at `index` of the innermost
    /// listing, then answer with `folder_state`.
    Folder { index: usize },
    /// The node just shown is open: list the directory at `index` of the
    /// innermost listing and answer with `enter`.
    List { index: usize },
    /// Read the file at `index` of the innermost listing and show its group,
    /// then answer with `advance`.
    Document { index: usize },
    /// The innermost open directory is done: close its node and answer with
    /// `advance`.
    Close,
    /// The frame's tree is complete.
    Done,
}

/// A walk's state: the listings of the open directories, outermost first, with
/// how far each has been walked, and the directory shown last if its node's
/// state is awaited.
pub struct WalkView {
    pub listings: Seq<Seq<Entry>>,
    pub cursors: Seq<int>,
    pub pending: Option<int>,
}

impl WalkView {
    pub open spec fn wf(self) -> bool {
        &&& self.listings.len() == self.cursors.len()
        &&& forall|i: int|
            0 <= i < self.cursors.len() ==> 0 <= #[trigger] self.cursors[i]
                <= self.listings[i].len() <= usize::MAX
        &&& match self.pending {
            Some(k) => k >= 0 && k < usize::MAX,
            None => true,
        }
    }
}

/// The first entry at or after `from` that shows up in the tree, or the
/// listing's length if none does.
pub open spec fn next_shown(entries: Seq<Entry>, from: int) -> int
    decreases entries.len() - from,
{
    if from >= entries.len() {
        entries.len() as int
    } else if is_shown(entries[from]) {
        from
    } else {
        next_shown(entries, from + 1)
    }
}

/// Moving on to the next entry that shows up: a folder to show, a document to
/// read, or the end of the innermost listing.
pub open spec fn advance_spec(v: WalkView) -> (WalkView, Step) {
    if v.listings.len() == 0 {
        (WalkView { pending: None, ..v }, Step::Done)
    } else {
        let t = v.listings.len() - 1;
        let entries = v.listings[t];
        let k = next_shown(entries, v.cursors[t]);
        if k < entries.len() {
            let cursors = v.cursors.update(t, k + 1);
            if entries[k].is_dir {
                (
                    WalkView { listings: v.listings, cursors, pending: Some(k) },
                    Step::Folder { index: k as usize },
                )
            } else {
                (
                    WalkView { listings: v.listings, cursors, pending: None },
                    Step::Document { index: k as usize },
                )
            }
        } else {
            let w = WalkView {
                listings: v.listings.drop_last(),
                cursors: v.cursors.drop_last(),
                pending: None,
            };
            if t > 0 {
                (w, Step::Close)
            } else {
                (w, Step::Done)
            }
        }
    }
}

/// Descending into a directory whose listing is `entries`.
pub open spec fn enter_spec(v: WalkView, entries: Seq<Entry>) -> (WalkView, Step) {
    advance_spec(
        WalkView {
            listings: v.listings.push(entries),
            cursors: v.cursors.push(0),
            pending: None,
        },
    )
}

/// Answering whether the folder just shown is open: an open one is listed,
/// a closed one is passed over.
pub open spec fn folder_state_spec(v: WalkView, open: bool) -> (WalkView, Step) {
    match v.pending {
        Some(k) => if open {
            (WalkView { pending: None, ..v }, Step::List { index: k as usize })
        } else {
            advance_spec(v)
        },
        None => advance_spec(v),
    }
}

/// A lazy depth-first walk of a directory tree, one frame's worth.
///
/// The caller lists directories, shows nodes and reads files as the steps ask
/// and hands back what it found; the walk decides what comes next. A
/// directory's children are listed only when its node is open.
pub struct Walker {
    listings: Vec<Vec<Entry>>,
    cursors: Vec<usize>,
    pending: Option<usize>,
}

impl View for Walker {
    type V = WalkView;

    closed spec fn view(&self) -> WalkView {
        WalkView {
            listings: self.listings@.map_values(|l: Vec<Entry>| l@),
            cursors: self.cursors@.map_values(|c: usize| c as int),
            pending: match self.pending {
                Some(k) => Some(k as int),
                None => None,
            },
        }
    }
}

impl Walker {
    /// A walk that has listed nothing yet; start it with `enter` on the
    /// root's listing.
    pub fn new() -> (r: Walker)
        ensures
            r@.wf(),
            r@.listings.len() == 0,
            r@.pending is None,
    {
        let r = Walker { listings: Vec::new(), cursors: Vec::new(), pending: None };
        proof {
            assert(r@.listings =~= Seq::<Seq<Entry>>::empty());
        }
        r
    }

    /// Moves on to the next entry that shows up.
    pub fn advance(&mut self) -> (r: Step)
        requires
            old(self)@.wf(),
        ensures
            final(self)@.wf(),
            (final(self)@, r) == advance_spec(old(self)@),
    {
        let ghost v = self@;
        let depth = self.listings.len();
        if depth == 0 {
            self.pending = None;
            proof {
                assert(self@ =~= WalkView { pending: None, ..v });
            }
            return Step::Done;
        }
        let t = depth - 1;
        assert(self.listings@[t as int]@ == v.listings[t as int]);
        let entries: &Vec<Entry> = &self.listings[t];
        let n = entries.len();
        let mut k = self.cursors[t];
        while k < n && !entries[k].is_shown()
            invariant
                v == self@,
                v.wf(),
                t == v.listings.len() - 1,
                entries@ == v.listings[t as int],
                n == entries@.len(),
                v.cursors[t as int] <= k <= n,
                next_shown(entries@, k as int) == next_shown(entries@, v.cursors[t as int]),
            decreases n - k,
        {
            k = k + 1;
        }
        if k < n {
            let is_dir = entries[k].is_dir;
            self.cursors.set(t, k + 1);
            if is_dir {
                self.pending = Some(k);
                proof {
                    assert(self@.cursors =~= v.cursors.update(t as int, k + 1));
                    assert(self@.listings =~= v.listings);
                }
                Step::Folder { index: k }
            } else {
                self.pending = None;
                proof {
                    assert(self@.cursors =~= v.cursors.update(t as int, k + 1));
                    assert(self@.listings =~= v.listings);
                }
                Step::Document { index: k }
            }
        } else {
            self.listings.pop();
            self.cursors.pop();
            self.pending = None;
            proof {
                assert(self@.listings =~= v.listings.drop_last());
                assert(self@.cursors =~= v.cursors.drop_last());
            }
            if t > 0 {
                Step::Close
            } else {
                Step::Done
            }
        }
    }

    /// Descends into a directory, given its listing: `None` where it could
    /// not be listed, which shows nothing inside it.
    pub fn enter(&mut self, listing: Option<Vec<Entry>>) -> (r: Step)
        requires
            old(self)@.wf(),
        ensures
            final(self)@.wf(),
            (final(self)@, r) == enter_spec(
                old(self)@,
                match listing {
                    Some(l) => l@,
                    None => Seq::empty(),
                },
            ),
    {
        let ghost v = self@;
        let entries = match listing {
            Some(l) => l,
            None => Vec::new(),
        };
        let ghost e = entries@;
        let _n: usize = entries.len();
        self.listings.push(entries);
        self.cursors.push(0);
        self.pending = None;
        proof {
            assert(self@.listings =~= v.listings.push(e));
            assert(self@.cursors =~= v.cursors.push(0));
        }
        self.advance()
    }

    /// Answers whether the folder node just shown is open. An open folder's
    /// directory is listed next; a closed one is passed over without looking
    /// inside it.
    pub fn folder_state(&mut self, open: bool) -> (r: Step)
        requires
            old(self)@.wf(),
        ensures
            final(self)@.wf(),
            (final(self)@, r) == folder_state_spec(old(self)@, open),
            !open ==> !(r is List),
            !open ==> final(self)@.listings.len() <= old(self)@.listings.len(),
            open ==> match old(self)@.pending {
                Some(k) => r == Step::List { index: k as usize },
                None => !(r is List),
            },
    {
        let ghost v = self@;
        proof {
            lemma_advance_never_lists(v);
        }
        match self.pending {
            Some(k) => {
                if open {
                    self.pending = None;
                    proof {
                        assert(self@ =~= WalkView { pending: None, ..v });
                    }
                    Step::List { index: k }
                } else {
                    self.advance()
                }
            },
            None => self.advance(),
        }
    }
}

/// Moving on never lists a directory and never opens a deeper one.
pub proof fn lemma_advance_never_lists(v: WalkView)
    ensures
        !(advance_spec(v).1 is List),
        advance_spec(v).0.listings.len() <= v.listings.len(),
{
}

/// A folder whose node is closed is not looked into: answering that it is
/// closed neither lists a directory nor descends; answering that it is open
/// lists that very folder, every time.
pub proof fn lemma_closed_folder_is_not_walked(v: WalkView)
    requires
        v.wf(),
    ensures
        !(folder_state_spec(v, false).1 is List),
        folder_state_spec(v, false).0.listings.len() <= v.listings.len(),
        v.pending is Some ==> folder_state_spec(v, true).1 == (Step::List {
            index: v.pending->Some_0 as usize,
        }),
{
    lemma_advance_never_lists(v);
}

/// An open folder is walked afresh each time it is entered: the first step
/// inside it is its first entry that shows up, whatever was walked before.
pub proof fn lemma_open_folder_is_walked_from_start(v: WalkView, entries: Seq<Entry>)
    requires
        v.wf(),
    ensures
        ({
            let k = next_shown(entries, 0);
            let r = enter_spec(v, entries).1;
            &&& k < entries.len() && entries[k].is_dir ==> r == Step::Folder { index: k as usize }
            &&& k < entries.len() && !entries[k].is_dir ==> r == Step::Document {
                index: k as usize,
            }
            &&& k >= entries.len() ==> r == if v.listings.len() > 0 {
                Step::Close
            } else {
                Step::Done
            }
        }),
{
}

/// Two steps that differ only in that `s` indexes a listing with one more
/// entry before the one it names.
pub open spec fn shifted_by_one(s: Step, t: Step) -> bool {
    match (s, t) {
        (Step::Folder { index: a }, Step::Folder { index: b }) => a == b + 1,
        (Step::Document { index: a }, Step::Document { index: b }) => a == b + 1,
        (Step::List { index: a }, Step::List { index: b }) => a == b + 1,
        _ => s == t,
    }
}

/// Past a removed entry, the next shown entry is the same one, one place later.
proof fn lemma_next_shown_after_removal(entries: Seq<Entry>, k: int, from: int)
    requires
        0 <= k < entries.len(),
        k < from,
    ensures
        next_shown(entries, from) == next_shown(entries.remove(k), from - 1) + 1,
    decreases entries.len() - from,
{
    let rest = entries.remove(k);
    if from < entries.len() {
        assert(entries[from] == rest[from - 1]);
        if !is_shown(entries[from]) {
            lemma_next_shown_after_removal(entries, k, from + 1);
        }
    }
}

/// Whatever became of the file just read, a file that could not be decoded
/// included, the walk goes on as if that file were not in its listing: the
/// step after a document is the step that the listing without it gives,
/// naming the same entry.
pub proof fn lemma_document_leaves_siblings_alone(v: WalkView, k: int)
    requires
        v.wf(),
        v.listings.len() > 0,
        0 <= k < v.listings.last().len(),
        is_document(v.listings.last()[k]),
        v.cursors.last() == k + 1,
    ensures
        ({
            let t = v.listings.len() - 1;
            let without = WalkView {
                listings: v.listings.update(t, v.listings[t].remove(k)),
                cursors: v.cursors.update(t, k),
                pending: v.pending,
            };
            shifted_by_one(advance_spec(v).1, advance_spec(without).1)
        }),
{
    let t = v.listings.len() - 1;
    let entries = v.listings[t];
    lemma_next_shown_after_removal(entries, k, k + 1);
    let j = next_shown(entries, k + 1);
    lemma_next_shown(entries, k + 1);
    if j < entries.len() {
        assert(entries[j] == entries.remove(k)[j - 1]);
    }
}

/// The first shown entry at or after `from` does show up.
pub proof fn lemma_next_shown(entries: Seq<Entry>, from: int)
    requires
        0 <= from,
    ensures
        from <= next_shown(entries, from) || from > entries.len(),
        next_shown(entries, from) <= entries.len(),
        next_shown(entries, from) < entries.len() ==> is_shown(entries[next_shown(entries, from)]),
    decreases entries.len() - from,
{
    if from < entries.len() && !is_shown(entries[from]) {
        lemma_next_shown(entries, from + 1);
    }
}

/// No listing of the walk holds a file to be read.
pub open spec fn no_documents(v: WalkView) -> bool {
    forall|i: int, j: int|
        0 <= i < v.listings.len() && 0 <= j < v.listings[i].len() ==> !is_document(
            #[trigger] v.listings[i][j],
        )
}

/// Where no listing holds a `.json` file, the walk shows folders alone: every
/// step is a folder, a listing, a close or the end, never a document, and
/// this stays so as the walk goes on and enters more such listings.
pub proof fn lemma_only_folders_without_documents(v: WalkView, open: bool, entries: Seq<Entry>)
    requires
        v.wf(),
        no_documents(v),
        entries.len() <= usize::MAX,
        forall|j: int| 0 <= j < entries.len() ==> !is_document(#[trigger] entries[j]),
    ensures
        !(advance_spec(v).1 is Document),
        no_documents(advance_spec(v).0),
        !(folder_state_spec(v, open).1 is Document),
        no_documents(folder_state_spec(v, open).0),
        !(enter_spec(v, entries).1 is Document),
        no_documents(enter_spec(v, entries).0),
{
    lemma_only_folders_step(v);
    let w = WalkView { listings: v.listings.push(entries), cursors: v.cursors.push(0), pending: None };
    assert(w.wf());
    assert(no_documents(w)) by {
        assert forall|i: int, j: int|
            0 <= i < w.listings.len() && 0 <= j < w.listings[i].len() implies !is_document(
            #[trigger] w.listings[i][j],
        ) by {
            if i < v.listings.len() {
                assert(w.listings[i] == v.listings[i]);
            }
        }
    }
    lemma_only_folders_step(w);
}

proof fn lemma_only_folders_step(v: WalkView)
    requires
        v.wf(),
        no_documents(v),
    ensures
        !(advance_spec(v).1 is Document),
        no_documents(advance_spec(v).0),
{
    if v.listings.len() > 0 {
        let t = v.listings.len() - 1;
        lemma_next_shown(v.listings[t], v.cursors[t]);
        let w = advance_spec(v).0;
        assert forall|i: int, j: int|
            0 <= i < w.listings.len() && 0 <= j < w.listings[i].len() implies !is_document(
            #[trigger] w.listings[i][j],
        ) by {
            assert(w.listings[i] == v.listings[i]);
        }
    }
}

/// The walk is a function of what it is told: two walks in the same state,
/// told the same thing, take the same step and reach the same state, so an
/// unchanged tree yields the same frame every time.
pub proof fn lemma_walk_is_deterministic(a: WalkView, b: WalkView, open: bool, entries: Seq<Entry>)
    requires
        a == b,
    ensures
        advance_spec(a) == advance_spec(b),
        folder_state_spec(a, open) == folder_state_spec(b, open),
        enter_spec(a, entries) == enter_spec(b, entries),
{
}

} // verus!
