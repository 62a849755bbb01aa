use vstd::prelude::*;

use crate::OsError;

verus! {

/// Identifies a window among those of one table. An id is the index of the
/// window's slot, so it is never handed out twice, not even after the window
/// it named was closed.
#[derive(Debug, Copy, Clone, PartialEq, Eq, Structural, Hash)]
pub struct WindowId(pub usize);

/// One entry of the id-to-native-handle table, and the model of one native window.
#[derive(Debug, Copy, Clone)]
pub struct Slot {
    pub alive: bool,
    pub handle: u64,
    pub parent: Option<usize>,
}

/// What native window creation hands back: the window object and its delegate.
#[derive(Debug, Copy, Clone)]
pub struct NativeWindow {
    pub window: u64,
    pub delegate: u64,
}

/// Why an attach request is refused.
#[derive(Debug, Copy, Clone, PartialEq, Eq, Structural)]
pub enum HierarchyError {
    /// The window to attach is not live.
    UnknownWindow,
    /// The requested parent is not live.
    UnknownParent,
    /// The parent is the window itself or one of its descendants.
    Cycle,
}

/// `x` is a live window.
pub open spec fn live(s: Seq<Slot>, x: int) -> bool {
    0 <= x < s.len() && s[x].alive
}

/// The parent of `x`, if `x` is live and has one.
pub open spec fn up(s: Seq<Slot>, x: int) -> Option<int> {
    if live(s, x) {
        match s[x].parent {
            Some(p) => Some(p as int),
            None => None,
        }
    } else {
        None
    }
}

/// The ancestor `k` levels above `x` (`x` itself at level 0).
pub open spec fn ancestor_at(s: Seq<Slot>, x: int, k: nat) -> Option<int>
    decreases k,
{
    if k == 0 {
        Some(x)
    } else {
        match ancestor_at(s, x, (k - 1) as nat) {
            Some(y) => up(s, y),
            None => None,
        }
    }
}

/// `a` is `x` or an ancestor of `x`.
pub open spec fn is_within(s: Seq<Slot>, x: int, a: int) -> bool {
    exists|k: nat| ancestor_at(s, x, k) == Some(a)
}

/// The native handle that `id` resolves to.
pub open spec fn lookup_spec(s: Seq<Slot>, id: int) -> Option<u64> {
    if live(s, id) {
        Some(s[id].handle)
    } else {
        None
    }
}

/// The table after a window with native handle `h` is registered under `parent`.
pub open spec fn create_spec(s: Seq<Slot>, h: u64, parent: Option<usize>) -> Seq<Slot> {
    s.push(Slot { alive: true, handle: h, parent })
}

/// The table after `c` is made a child of `p`.
pub open spec fn attach_spec(s: Seq<Slot>, c: int, p: int) -> Seq<Slot> {
    s.update(c, Slot { alive: s[c].alive, handle: s[c].handle, parent: Some(p as usize) })
}

/// The table after `c` leaves its parent.
pub open spec fn detach_spec(s: Seq<Slot>, c: int) -> Seq<Slot> {
    s.update(c, Slot { alive: s[c].alive, handle: s[c].handle, parent: None })
}

/// Slot `i` after window `x` is closed: `x` dies and its children lose their parent.
pub open spec fn after_close(s: Seq<Slot>, i: int, x: int) -> Slot {
    if i == x {
        Slot { alive: false, handle: s[i].handle, parent: None }
    } else if s[i].parent == Some(x as usize) {
        Slot { alive: s[i].alive, handle: s[i].handle, parent: None }
    } else {
        s[i]
    }
}

/// The table after window `x` is closed; closing a window that is not live changes nothing.
pub open spec fn close_spec(s: Seq<Slot>, x: int) -> Seq<Slot> {
    if live(s, x) {
        Seq::new(s.len(), |i: int| after_close(s, i, x))
    } else {
        s
    }
}

/// The direct children of `p` among the first `n` slots, in slot order.
pub open spec fn children_upto(s: Seq<Slot>, p: int, n: nat) -> Seq<usize>
    decreases n,
{
    if n == 0 {
        Seq::empty()
    } else {
        let prev = children_upto(s, p, (n - 1) as nat);
        if up(s, n - 1) == Some(p) {
            prev.push((n - 1) as usize)
        } else {
            prev
        }
    }
}

/// The direct children of `p`, in slot order.
pub open spec fn children_spec(s: Seq<Slot>, p: int) -> Seq<usize> {
    children_upto(s, p, s.len())
}

/// Whether `c` may be attached under `p`, and if not, why.
pub open spec fn attach_check_spec(s: Seq<Slot>, c: int, p: int) -> Result<(), HierarchyError> {
    if !live(s, c) {
        Err(HierarchyError::UnknownWindow)
    } else if !live(s, p) {
        Err(HierarchyError::UnknownParent)
    } else if is_within(s, p, c) {
        Err(HierarchyError::Cycle)
    } else {
        Ok(())
    }
}

/// The numbers of a sequence of window ids.
pub open spec fn ids_of(ws: Seq<WindowId>) -> Seq<usize> {
    ws.map_values(|w: WindowId| w.0)
}

/// The parent link of slot `i`, if any, goes from a live window to a live
/// window of strictly lower rank.
pub open spec fn link_ranked(s: Seq<Slot>, rank: Seq<nat>, i: int) -> bool {
    match s[i].parent {
        Some(p) => s[i].alive && live(s, p as int) && rank[p as int] < rank[i],
        None => true,
    }
}

/// Every parent link is ranked, so no window is its own ancestor; dead
/// slots have no parent.
pub open spec fn ranked(s: Seq<Slot>, rank: Seq<nat>) -> bool {
    &&& rank.len() == s.len()
    &&& forall|i: int| 0 <= i < s.len() ==> #[trigger] link_ranked(s, rank, i)
}

/// Unfolding an ancestor chain from its lower end.
pub proof fn lemma_ancestor_front(s: Seq<Slot>, x: int, k: nat)
    ensures
        ancestor_at(s, x, k + 1) == match up(s, x) {
            Some(p) => ancestor_at(s, p, k),
            None => None,
        },
    decreases k,
{
    assert(ancestor_at(s, x, 0) == Some(x));
    if k > 0 {
        lemma_ancestor_front(s, x, (k - 1) as nat);
        match up(s, x) {
            Some(p) => {
                assert(ancestor_at(s, x, k) == ancestor_at(s, p, (k - 1) as nat));
            },
            None => {
                assert(ancestor_at(s, x, k) == None::<int>);
            },
        }
    } else {
        match up(s, x) {
            Some(p) => {
                assert(ancestor_at(s, p, 0) == Some(p));
            },
            None => {},
        }
    }
}

/// Past the top of a chain there are no more ancestors.
pub proof fn lemma_ancestor_none(s: Seq<Slot>, x: int, k: nat, j: nat)
    requires
        ancestor_at(s, x, k) == None::<int>,
        k <= j,
    ensures
        ancestor_at(s, x, j) == None::<int>,
    decreases j - k,
{
    if k < j {
        lemma_ancestor_none(s, x, k, (j - 1) as nat);
    }
}

/// A window other than `c` lies under `c` exactly when its parent does.
pub proof fn lemma_within_step(s: Seq<Slot>, y: int, q: int, c: int)
    requires
        up(s, y) == Some(q),
        y != c,
    ensures
        is_within(s, y, c) == is_within(s, q, c),
{
    if is_within(s, y, c) {
        let k = choose|k: nat| ancestor_at(s, y, k) == Some(c);
        assert(k != 0);
        lemma_ancestor_front(s, y, (k - 1) as nat);
        assert(ancestor_at(s, q, (k - 1) as nat) == Some(c));
    }
    if is_within(s, q, c) {
        let k = choose|k: nat| ancestor_at(s, q, k) == Some(c);
        lemma_ancestor_front(s, y, k);
        assert(ancestor_at(s, y, k + 1) == Some(c));
    }
}

/// The table that resolves window ids to native windows and records which
/// window is the child of which.
pub struct WindowTable {
    slots: Vec<Slot>,
    rank: Ghost<Seq<nat>>,
}

impl View for WindowTable {
    type V = Seq<Slot>;

    closed spec fn view(&self) -> Seq<Slot> {
        self.slots@
    }
}

impl WindowTable {
    /// The table is well formed: its hierarchy has no cycle.
    pub closed spec fn wf(&self) -> bool {
        ranked(self.slots@, self.rank@)
    }

    /// The table never holds more slots than a `usize` counts.
    pub proof fn lemma_len_bound(&self)
        ensures
            self@.len() <= usize::MAX,
    {
        assert(self.slots.len() == self.slots@.len());
    }

    /// An empty table.
    pub fn new() -> (r: WindowTable)
        ensures
            r.wf(),
            r@ == Seq::<Slot>::empty(),
    {
        WindowTable { slots: Vec::new(), rank: Ghost(Seq::empty()) }
    }

    /// Whether `id` names a live window.
    pub fn is_live(&self, id: WindowId) -> (r: bool)
        ensures
            r == live(self@, id.0 as int),
    {
        id.0 < self.slots.len() && self.slots[id.0].alive
    }

    /// The native handle of window `id`, or `None` once it is closed.
    pub fn lookup(&self, id: WindowId) -> (r: Option<u64>)
        ensures
            r == lookup_spec(self@, id.0 as int),
    {
        if self.is_live(id) {
            Some(self.slots[id.0].handle)
        } else {
            None
        }
    }

    /// Whether `child` may be attached under `parent`: both must be live and
    /// `parent` must be neither `child` nor one of its descendants.
    pub fn check_attach(&self, child: WindowId, parent: WindowId) -> (r: Result<(), HierarchyError>)
        requires
            self.wf(),
        ensures
            r == attach_check_spec(self@, child.0 as int, parent.0 as int),
    {
        if !self.is_live(child) {
            return Err(HierarchyError::UnknownWindow);
        }
        if !self.is_live(parent) {
            return Err(HierarchyError::UnknownParent);
        }
        let ghost s = self.slots@;
        let ghost c = child.0 as int;
        let ghost start = parent.0 as int;
        let mut cur: usize = parent.0;
        let ghost mut k: nat = 0;
        loop
            invariant
                self.wf(),
                s == self.slots@,
                c == child.0 as int,
                start == parent.0 as int,
                live(s, c),
                live(s, start),
                live(s, cur as int),
                ancestor_at(s, start, k) == Some(cur as int),
                forall|j: nat| j < k ==> ancestor_at(s, start, j) != Some(c),
            decreases self.rank@[cur as int],
        {
            if cur == child.0 {
                assert(ancestor_at(s, start, k) == Some(c));
                assert(is_within(s, start, c));
                return Err(HierarchyError::Cycle);
            }
            match self.slots[cur].parent {
                None => {
                    proof {
                        assert(s[cur as int].parent is None);
                        assert(ancestor_at(s, start, k + 1) == None::<int>);
                        assert forall|j: nat| ancestor_at(s, start, j) != Some(c) by {
                            if j > k {
                                lemma_ancestor_none(s, start, k + 1, j);
                            } else if j == k {
                                assert(cur as int != c);
                            }
                        }
                        assert(!is_within(s, start, c));
                    }
                    return Ok(());
                },
                Some(p) => {
                    proof {
                        assert(s[cur as int].parent == Some(p));
                        assert(link_ranked(s, self.rank@, cur as int));
                        assert(ancestor_at(s, start, k + 1) == Some(p as int));
                        k = k + 1;
                    }
                    cur = p;
                },
            }
        }
    }
}

/// A native window, its delegate, and the id it is registered under.
pub struct Window {
    id: WindowId,
    handle: u64,
    delegate: u64,
}

impl Window {
    /// The id this window is registered under.
    pub closed spec fn spec_id(&self) -> usize {
        self.id.0
    }

    /// The native window object.
    pub closed spec fn spec_handle(&self) -> u64 {
        self.handle
    }

    /// The delegate bound to the native window.
    pub closed spec fn spec_delegate(&self) -> u64 {
        self.delegate
    }

    /// Registers a natively created window and, when a parent is given, makes
    /// it that parent's child. A native failure is handed back unchanged and
    /// registers nothing.
    pub fn new(
        table: &mut WindowTable,
        native: Result<NativeWindow, OsError>,
        parent: Option<WindowId>,
    ) -> (r: Result<Window, OsError>)
        requires
            old(table).wf(),
            parent matches Some(p) ==> live(old(table)@, p.0 as int),
        ensures
            final(table).wf(),
            match native {
                Err(e) => r == Err::<Window, OsError>(e) && final(table)@ == old(table)@,
                Ok(n) => r matches Ok(w) && w.spec_id() == old(table)@.len()
                    && w.spec_handle() == n.window && w.spec_delegate() == n.delegate
                    && final(table)@ == create_spec(
                    old(table)@,
                    n.window,
                    match parent {
                        Some(p) => Some(p.0),
                        None => None,
                    },
                ),
            },
    {
        match native {
            Err(e) => Err(e),
            Ok(n) => {
                let id = table.slots.len();
                let link = match parent {
                    Some(p) => Some(p.0),
                    None => None,
                };
                let ghost r0 = table.rank@;
                let ghost new_rank: nat = match parent {
                    Some(p) => r0[p.0 as int] + 1,
                    None => 0,
                };
                table.slots.push(Slot { alive: true, handle: n.window, parent: link });
                proof {
                    table.rank@ = r0.push(new_rank);
                    let s = table.slots@;
                    assert forall|i: int| 0 <= i < s.len() implies #[trigger] link_ranked(
                        s,
                        table.rank@,
                        i,
                    ) by {
                        if i < id {
                            assert(s[i] == old(table).slots@[i]);
                            assert(link_ranked(old(table).slots@, r0, i));
                        }
                    }
                }
                Ok(Window { id: WindowId(id), handle: n.window, delegate: n.delegate })
            },
        }
    }

    /// The native window object.
    pub fn handle(&self) -> (r: u64)
        ensures
            r == self.spec_handle(),
    {
        self.handle
    }

    /// The id of this window.
    pub fn id(&self) -> (r: WindowId)
        ensures
            r.0 == self.spec_id(),
    {
        self.id
    }
    /// Makes this window a child of `parent`, leaving any earlier parent.
    /// Both must be live and `parent` must not lie under this window
    /// (`WindowTable::check_attach` tells); anything else is a caller's error.
    pub fn add_child_to(&self, table: &mut WindowTable, parent: WindowId)
        requires
            old(table).wf(),
            attach_check_spec(old(table)@, self.spec_id() as int, parent.0 as int) is Ok,
        ensures
            final(table).wf(),
            final(table)@ == attach_spec(old(table)@, self.spec_id() as int, parent.0 as int),
    {
        let c = self.id.0;
        let ghost s = table.slots@;
        let ghost r0 = table.rank@;
        let ghost rp = r0[parent.0 as int];
        let old_slot = table.slots[c];
        table.slots.set(c, Slot { alive: old_slot.alive, handle: old_slot.handle, parent: Some(parent.0) });
        proof {
            let r1 = Seq::new(
                r0.len(),
                |y: int|
                    if is_within(s, y, c as int) {
                        r0[y] + rp + 1
                    } else {
                        r0[y]
                    },
            );
            let s1 = table.slots@;
            assert(ancestor_at(s, c as int, 0) == Some(c as int));
            assert forall|i: int| 0 <= i < s1.len() implies #[trigger] link_ranked(s1, r1, i) by {
                assert(link_ranked(s, r0, i));
                if i != c {
                    assert(s1[i] == s[i]);
                    match s[i].parent {
                        Some(q) => {
                            assert(up(s, i) == Some(q as int));
                            lemma_within_step(s, i, q as int, c as int);
                        },
                        None => {},
                    }
                }
            }
            table.rank@ = r1;
        }
    }

    /// Detaches this window from its parent; a window without a parent is left as it is.
    pub fn remove_self_as_child_from_parent(&self, table: &mut WindowTable)
        requires
            old(table).wf(),
            live(old(table)@, self.spec_id() as int),
        ensures
            final(table).wf(),
            final(table)@ == detach_spec(old(table)@, self.spec_id() as int),
    {
        let c = self.id.0;
        let ghost s = table.slots@;
        let old_slot = table.slots[c];
        table.slots.set(c, Slot { alive: old_slot.alive, handle: old_slot.handle, parent: None });
        proof {
            let s1 = table.slots@;
            assert forall|i: int| 0 <= i < s1.len() implies #[trigger] link_ranked(s1, table.rank@, i) by {
                assert(link_ranked(s, table.rank@, i));
            }
        }
    }

    /// The live direct children of this window, in the order of their ids.
    pub fn child_windows(&self, table: &WindowTable) -> (r: Vec<WindowId>)
        ensures
            ids_of(r@) == children_spec(table@, self.spec_id() as int),
    {
        let p = self.id.0;
        let mut out: Vec<WindowId> = Vec::new();
        let mut i: usize = 0;
        while i < table.slots.len()
            invariant
                p == self.id.0,
                i <= table.slots.len(),
                ids_of(out@) == children_upto(table@, p as int, i as nat),
            decreases table.slots.len() - i,
        {
            let sl = table.slots[i];
            let is_child = sl.alive && match sl.parent {
                Some(q) => q == p,
                None => false,
            };
            let ghost before = out@;
            if is_child {
                out.push(WindowId(i));
                assert(ids_of(out@) =~= ids_of(before).push(i));
            }
            assert(children_upto(table@, p as int, (i + 1) as nat) == if up(table@, i as int) == Some(p as int) {
                children_upto(table@, p as int, i as nat).push(i)
            } else {
                children_upto(table@, p as int, i as nat)
            });
            i = i + 1;
        }
        out
    }

    /// Closes this window: its id stops resolving and its children lose their
    /// parent. Closing a window that is already closed changes nothing.
    pub fn close_window(&self, table: &mut WindowTable)
        requires
            old(table).wf(),
        ensures
            final(table).wf(),
            final(table)@ == close_spec(old(table)@, self.spec_id() as int),
    {
        if !table.is_live(self.id) {
            return;
        }
        let x = self.id.0;
        let ghost s = table.slots@;
        let mut i: usize = 0;
        while i < table.slots.len()
            invariant
                x == self.id.0,
                live(s, x as int),
                table.slots@.len() == s.len(),
                table.rank@ == old(table).rank@,
                s == old(table).slots@,
                i <= s.len(),
                forall|j: int| 0 <= j < i ==> table.slots@[j] == after_close(s, j, x as int),
                forall|j: int| i <= j < s.len() ==> table.slots@[j] == s[j],
            decreases s.len() - i,
        {
            let sl = table.slots[i];
            if i == x {
                table.slots.set(i, Slot { alive: false, handle: sl.handle, parent: None });
            } else {
                match sl.parent {
                    Some(q) => {
                        if q == x {
                            table.slots.set(i, Slot { alive: sl.alive, handle: sl.handle, parent: None });
                        }
                    },
                    None => {},
                }
            }
            i = i + 1;
        }
        proof {
            let s1 = table.slots@;
            assert(s1 =~= close_spec(s, x as int));
            assert forall|i: int| 0 <= i < s1.len() implies #[trigger] link_ranked(s1, table.rank@, i) by {
                assert(link_ranked(s, table.rank@, i));
                assert(s1[i] == after_close(s, i, x as int));
                match s[i].parent {
                    Some(q) => {
                        if i != x && q != x {
                            assert(s1[q as int] == after_close(s, q as int, x as int));
                            assert(link_ranked(s, table.rank@, q as int));
                        }
                    },
                    None => {},
                }
            }
        }
    }
}

} // verus!

verus! {

/// A window is listed among `p`'s children exactly when it is a live child of `p`.
pub proof fn lemma_children_upto(s: Seq<Slot>, p: int, n: nat)
    requires
        n <= s.len(),
        s.len() <= usize::MAX,
    ensures
        forall|i: int|
            0 <= i < children_upto(s, p, n).len() ==> #[trigger] children_upto(s, p, n)[i] < n,
        forall|y: int|
            0 <= y < n ==> (children_upto(s, p, n).contains(y as usize) <==> up(s, y) == Some(
                p,
            )),
    decreases n,
{
    if n > 0 {
        let m = (n - 1) as nat;
        lemma_children_upto(s, p, m);
        let prev = children_upto(s, p, m);
        let cur = children_upto(s, p, n);
        assert forall|y: int| 0 <= y < n implies (cur.contains(y as usize) <==> up(s, y) == Some(
            p,
        )) by {
            if up(s, m as int) == Some(p) {
                assert(cur == prev.push(m as usize));
                if y == m {
                    assert(cur[prev.len() as int] == y as usize);
                } else if cur.contains(y as usize) {
                    let j = choose|j: int| 0 <= j < cur.len() && cur[j] == y as usize;
                    if j < prev.len() {
                        assert(prev[j] == y as usize);
                    }
                } else if prev.contains(y as usize) {
                    let j = choose|j: int| 0 <= j < prev.len() && prev[j] == y as usize;
                    assert(cur[j] == y as usize);
                }
            } else {
                if y == m && prev.contains(y as usize) {
                    let j = choose|j: int| 0 <= j < prev.len() && prev[j] == y as usize;
                    assert(prev[j] < m);
                }
            }
        }
    }
}

/// A newly registered window gets an id that no earlier window had, live or
/// closed; that id resolves to the new native window, and every earlier id
/// resolves as it did before.
pub proof fn lemma_create_fresh(s: Seq<Slot>, h: u64, parent: Option<usize>)
    ensures
        lookup_spec(s, s.len() as int) == None::<u64>,
        forall|i: int|
            0 <= i < s.len() ==> #[trigger] lookup_spec(create_spec(s, h, parent), i)
                == lookup_spec(s, i),
        lookup_spec(create_spec(s, h, parent), s.len() as int) == Some(h),
{
    assert forall|i: int| 0 <= i < s.len() implies #[trigger] lookup_spec(
        create_spec(s, h, parent),
        i,
    ) == lookup_spec(s, i) by {
        assert(create_spec(s, h, parent)[i] == s[i]);
    }
}

/// Once a window is closed its id no longer resolves, and a window registered
/// afterwards gets another id, so the old id keeps not resolving.
pub proof fn lemma_closed_id_stays_unresolved(s: Seq<Slot>, x: int, h: u64, parent: Option<usize>)
    requires
        0 <= x < s.len(),
    ensures
        lookup_spec(close_spec(s, x), x) == None::<u64>,
        close_spec(s, x).len() != x,
        lookup_spec(create_spec(close_spec(s, x), h, parent), x) == None::<u64>,
{
    let t = close_spec(s, x);
    if live(s, x) {
        assert(t[x] == after_close(s, x, x));
    }
    assert(create_spec(t, h, parent)[x] == t[x]);
}

/// Attaching `c` under `p` lists `c` among `p`'s children; detaching it again
/// takes it off that list; detaching a second time changes nothing.
pub proof fn lemma_attach_then_detach(s: Seq<Slot>, c: int, p: int)
    requires
        s.len() <= usize::MAX,
        attach_check_spec(s, c, p) is Ok,
    ensures
        children_spec(attach_spec(s, c, p), p).contains(c as usize),
        !children_spec(detach_spec(attach_spec(s, c, p), c), p).contains(c as usize),
        detach_spec(detach_spec(attach_spec(s, c, p), c), c) == detach_spec(attach_spec(s, c, p), c),
{
    let a = attach_spec(s, c, p);
    let d = detach_spec(a, c);
    lemma_children_upto(a, p, a.len());
    lemma_children_upto(d, p, d.len());
    assert(up(a, c) == Some(p));
    assert(up(d, c) == None::<int>);
    assert(detach_spec(d, c) =~= d);
}

/// Detaching a window that has no parent changes nothing.
pub proof fn lemma_detach_without_parent(s: Seq<Slot>, c: int)
    requires
        0 <= c < s.len(),
        s[c].parent is None,
    ensures
        detach_spec(s, c) == s,
{
    assert(detach_spec(s, c) =~= s);
}

/// No window can be attached under itself.
pub proof fn lemma_no_self_attach(s: Seq<Slot>, a: int)
    requires
        live(s, a),
    ensures
        attach_check_spec(s, a, a) == Err::<(), HierarchyError>(HierarchyError::Cycle),
{
    assert(ancestor_at(s, a, 0) == Some(a));
}

/// Once `b` is a child of `a`, attaching `a` under `b` is refused as a cycle.
pub proof fn lemma_no_two_cycle(s: Seq<Slot>, a: int, b: int)
    requires
        s.len() <= usize::MAX,
        attach_check_spec(s, b, a) is Ok,
    ensures
        attach_check_spec(attach_spec(s, b, a), a, b) == Err::<(), HierarchyError>(
            HierarchyError::Cycle,
        ),
{
    let t = attach_spec(s, b, a);
    assert(ancestor_at(s, a, 0) == Some(a));
    assert(a != b);
    assert(up(t, b) == Some(a));
    assert(ancestor_at(t, b, 0) == Some(b));
    assert(ancestor_at(t, b, 1) == Some(a));
}

} // verus!
