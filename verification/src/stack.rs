use vstd::prelude::*;

verus! {

/// The mathematical model of a focus stack: the focused element, the
/// elements above it (nearest first) and the elements below it (nearest
/// first).
#[verifier::ext_equal]
pub struct Zipper<T> {
    pub focus: T,
    pub up: Seq<T>,
    pub down: Seq<T>,
}

impl<T> Zipper<T> {
    /// The elements in display order: the `up` list reversed, then the
    /// focus, then the `down` list.
    pub open spec fn integrate(self) -> Seq<T> {
        self.up.reverse() + seq![self.focus] + self.down
    }

    /// The number of elements.
    pub open spec fn len(self) -> nat {
        1 + self.up.len() + self.down.len()
    }

    /// The element is the focus, above it or below it.
    pub open spec fn contains(self, x: T) -> bool {
        self.focus == x || self.up.contains(x) || self.down.contains(x)
    }

    /// The new element is focused; the old focus goes to the end of `down`.
    pub open spec fn add(self, t: T) -> Zipper<T> {
        Zipper { focus: t, up: self.up, down: self.down.push(self.focus) }
    }

    /// The stack upside down: `up` and `down` trade places.
    pub open spec fn reverse(self) -> Zipper<T> {
        Zipper { focus: self.focus, up: self.down, down: self.up }
    }

    /// The element above the focus is focused; from the top, the focus wraps
    /// around to the bottom.
    pub open spec fn focus_up(self) -> Zipper<T> {
        if self.up.len() == 0 {
            let tmp = (seq![self.focus] + self.down).reverse();
            Zipper { focus: tmp[0], up: tmp.drop_first(), down: Seq::empty() }
        } else {
            Zipper { focus: self.up[0], up: self.up.drop_first(), down: seq![self.focus] + self.down }
        }
    }

    /// The element below the focus is focused; from the bottom, the focus wraps
    /// around to the top.
    pub open spec fn focus_down(self) -> Zipper<T> {
        self.reverse().focus_up().reverse()
    }

    /// The focused element trades places with the one above it; at the top, it
    /// moves to the bottom.
    pub open spec fn swap_up(self) -> Zipper<T> {
        if self.up.len() == 0 {
            Zipper { focus: self.focus, up: self.down.reverse(), down: Seq::empty() }
        } else {
            Zipper { focus: self.focus, up: self.up.drop_first(), down: seq![self.up[0]] + self.down }
        }
    }

    /// The focused element trades places with the one below it; at the bottom,
    /// it moves to the top.
    pub open spec fn swap_down(self) -> Zipper<T> {
        self.reverse().swap_up().reverse()
    }

    /// The focused element trades places with the one at the top.
    pub open spec fn swap_master(self) -> Zipper<T> {
        if self.up.len() == 0 {
            self
        } else {
            let r = self.up.reverse();
            Zipper { focus: self.focus, up: Seq::empty(), down: r.drop_first() + seq![r[0]] + self.down }
        }
    }

    /// Keeps the elements that satisfy `p`. The new focus is the first kept
    /// element of the focus and `down` list; failing that, the nearest kept
    /// element above.
    pub open spec fn filter(self, p: spec_fn(T) -> bool) -> Option<Zipper<T>> {
        let lrs = (seq![self.focus] + self.down).filter(p);
        if lrs.len() > 0 {
            Some(Zipper { focus: lrs[0], up: self.up.filter(p), down: lrs.drop_first() })
        } else {
            let ups = self.up.filter(p);
            if ups.len() > 0 {
                Some(Zipper { focus: ups[0], up: ups.drop_first(), down: Seq::empty() })
            } else {
                None
            }
        }
    }
}

/// What a filtering closure answers for an element, read off its contract.
pub open spec fn keeps<T, F: Fn(&T) -> bool>(f: F, x: T) -> bool {
    f.ensures((&x,), true)
}

/// A filtering closure that can be called on every element and answers the
/// same for the same element.
pub open spec fn is_predicate<T, F: Fn(&T) -> bool>(f: F) -> bool {
    &&& forall|x: &T| #[trigger] f.requires((x,))
    &&& forall|x: &T, a: bool, b: bool| #[trigger] f.ensures((x,), a) && #[trigger] f.ensures((x,), b) ==> a == b
}

/// Handles focus tracking on a workspace.
/// `focus` keeps track of the focused window's id
/// and `up` and `down` are the windows above or
/// below the focus stack respectively.
#[derive(PartialEq, Eq, Debug)]
pub struct Stack<T> {
    pub focus: T,
    pub up: Vec<T>,
    pub down: Vec<T>,
}

impl<T> View for Stack<T> {
    type V = Zipper<T>;

    open spec fn view(&self) -> Zipper<T> {
        Zipper { focus: self.focus, up: self.up@, down: self.down@ }
    }
}

impl<T: Copy> Clone for Stack<T> {
    fn clone(&self) -> (r: Self)
        ensures
            r@ == self@,
    {
        Stack { focus: self.focus, up: copy_vec(&self.up), down: copy_vec(&self.down) }
    }
}

/// A copy of the vector, element by element.
pub fn copy_vec<T: Copy>(v: &Vec<T>) -> (r: Vec<T>)
    ensures
        r@ == v@,
{
    let mut r: Vec<T> = Vec::new();
    let mut i: usize = 0;
    while i < v.len()
        invariant
            i <= v.len(),
            r@ == v@.subrange(0, i as int),
        decreases v.len() - i,
    {
        r.push(v[i]);
        i = i + 1;
    }
    assert(v@.subrange(0, v@.len() as int) =~= v@);
    r
}

/// The vector in reverse order.
pub fn reversed_vec<T: Copy>(v: &Vec<T>) -> (r: Vec<T>)
    ensures
        r@ == v@.reverse(),
{
    let mut r: Vec<T> = Vec::new();
    let mut i: usize = v.len();
    while i > 0
        invariant
            i <= v.len(),
            r@.len() == v@.len() - i,
            forall|k: int| 0 <= k < r@.len() ==> #[trigger] r@[k] == v@[v@.len() - 1 - k],
        decreases i,
    {
        i = i - 1;
        r.push(v[i]);
    }
    assert(r@ =~= v@.reverse());
    r
}

/// The first vector followed by the second one.
pub fn concat_vec<T: Copy>(a: &Vec<T>, b: &Vec<T>) -> (r: Vec<T>)
    ensures
        r@ == a@ + b@,
{
    let mut r = copy_vec(a);
    let mut i: usize = 0;
    while i < b.len()
        invariant
            i <= b.len(),
            r@ == a@ + b@.subrange(0, i as int),
        decreases b.len() - i,
    {
        r.push(b[i]);
        i = i + 1;
        assert(a@ + b@.subrange(0, i as int) =~= (a@ + b@.subrange(0, i - 1)).push(b@[i - 1]));
    }
    assert(b@.subrange(0, b@.len() as int) =~= b@);
    r
}

/// The vector without its first element.
pub fn tail_vec<T: Copy>(v: &Vec<T>) -> (r: Vec<T>)
    requires
        v@.len() > 0,
    ensures
        r@ == v@.drop_first(),
{
    let mut r: Vec<T> = Vec::new();
    let mut i: usize = 1;
    while i < v.len()
        invariant
            1 <= i <= v.len(),
            r@ == v@.subrange(1, i as int),
        decreases v.len() - i,
    {
        r.push(v[i]);
        i = i + 1;
    }
    assert(v@.subrange(1, v@.len() as int) =~= v@.drop_first());
    r
}

/// Filtering one element more adds it when it passes the test.
pub proof fn lemma_filter_step<T>(s: Seq<T>, p: spec_fn(T) -> bool, i: int)
    requires
        0 <= i < s.len(),
    ensures
        s.subrange(0, i + 1).filter(p) == if p(s[i]) {
            s.subrange(0, i).filter(p).push(s[i])
        } else {
            s.subrange(0, i).filter(p)
        },
{
    reveal_with_fuel(Seq::filter, 1);
    assert(s.subrange(0, i + 1).drop_last() =~= s.subrange(0, i));
}

/// What a filter keeps was in the sequence and passes the test.
pub proof fn lemma_seq_filter_kept<T>(s: Seq<T>, p: spec_fn(T) -> bool, x: T)
    requires
        s.filter(p).contains(x),
    ensures
        s.contains(x),
        p(x),
    decreases s.len(),
{
    reveal_with_fuel(Seq::filter, 1);
    if s.len() > 0 {
        let rest = s.drop_last().filter(p);
        if rest.contains(x) {
            lemma_seq_filter_kept(s.drop_last(), p, x);
            let k = choose|k: int| 0 <= k < s.drop_last().len() && s.drop_last()[k] == x;
            assert(s[k] == x);
        } else {
            assert(p(s.last()));
            assert(s.filter(p) == rest.push(s.last()));
            let k = choose|k: int| 0 <= k < s.filter(p).len() && s.filter(p)[k] == x;
            assert(k == rest.len());
            assert(s[s.len() - 1] == x);
        }
    }
}

impl<T: Copy + Eq> Stack<T> {
    /// Create a new stack with the given values
    pub fn new(f: T, up: Vec<T>, down: Vec<T>) -> (r: Stack<T>)
        ensures
            r@ == (Zipper { focus: f, up: up@, down: down@ }),
    {
        Stack { focus: f, up: up, down: down }
    }

    /// Create a new stack with only the given element
    /// as the focused one and initialize the rest to empty.
    pub fn from_element(t: T) -> (r: Stack<T>)
        ensures
            r@ == (Zipper { focus: t, up: Seq::<T>::empty(), down: Seq::<T>::empty() }),
    {
        Stack { focus: t, up: Vec::new(), down: Vec::new() }
    }

    /// Add a new element to the stack
    /// and automatically focus it.
    pub fn add(&self, t: T) -> (r: Stack<T>)
        ensures
            r@ == self@.add(t),
    {
        let mut down = copy_vec(&self.down);
        down.push(self.focus);
        Stack { focus: t, up: copy_vec(&self.up), down: down }
    }

    /// Flatten the stack into a list
    pub fn integrate(&self) -> (r: Vec<T>)
        ensures
            r@ == self@.integrate(),
    {
        let mut r = reversed_vec(&self.up);
        r.push(self.focus);
        let r2 = concat_vec(&r, &self.down);
        assert(r2@ =~= self@.integrate());
        r2
    }

    /// Filter the stack to retain only windows
    /// that yield true in the given filter function
    pub fn filter<F: Fn(&T) -> bool>(&self, f: F) -> (r: Option<Stack<T>>)
        requires
            is_predicate::<T, F>(f),
        ensures
            r matches Some(s) ==> self@.filter(|x: T| keeps(f, x)) == Some(s@),
            r is None ==> self@.filter(|x: T| keeps(f, x)) is None,
            forall|x: T| self@.contains(x) ==> f.ensures((&x,), keeps(f, x)),
    {
        let ghost p = |x: T| keeps(f, x);
        let mut fd: Vec<T> = Vec::new();
        fd.push(self.focus);
        let fd = concat_vec(&fd, &self.down);
        let mut lrs: Vec<T> = Vec::new();
        let mut i: usize = 0;
        while i < fd.len()
            invariant
                is_predicate::<T, F>(f),
                i <= fd.len(),
                p == (|x: T| keeps(f, x)),
                lrs@ == fd@.subrange(0, i as int).filter(p),
                forall|k: int| 0 <= k < i ==> f.ensures((&fd@[k],), keeps(f, fd@[k])),
            decreases fd.len() - i,
        {
            let x = fd[i];
            let b = f(&x);
            proof {
                lemma_filter_step(fd@, p, i as int);
                assert(f.ensures((&x,), b));
                if !b {
                    if keeps(f, x) {
                        assert(f.ensures((&x,), true));
                    }
                }
            }
            if b {
                lrs.push(x);
            }
            i = i + 1;
        }
        assert(fd@.subrange(0, fd@.len() as int) =~= fd@);
        assert(fd@ =~= seq![self.focus] + self.down@);
        let mut ups: Vec<T> = Vec::new();
        let mut j: usize = 0;
        while j < self.up.len()
            invariant
                is_predicate::<T, F>(f),
                j <= self.up.len(),
                p == (|x: T| keeps(f, x)),
                ups@ == self.up@.subrange(0, j as int).filter(p),
                forall|k: int| 0 <= k < j ==> f.ensures((&self.up@[k],), keeps(f, self.up@[k])),
            decreases self.up.len() - j,
        {
            let x = self.up[j];
            let b = f(&x);
            proof {
                lemma_filter_step(self.up@, p, j as int);
                assert(f.ensures((&x,), b));
                if !b {
                    if keeps(f, x) {
                        assert(f.ensures((&x,), true));
                    }
                }
            }
            if b {
                ups.push(x);
            }
            j = j + 1;
        }
        assert(self.up@.subrange(0, self.up@.len() as int) =~= self.up@);
        assert forall|x: T| self@.contains(x) implies f.ensures((&x,), keeps(f, x)) by {
            if x == self.focus {
                assert(fd@[0] == x);
            } else if self.up@.contains(x) {
                let k = choose|k: int| 0 <= k < self.up@.len() && self.up@[k] == x;
                assert(f.ensures((&self.up@[k],), keeps(f, self.up@[k])));
            } else {
                let k = choose|k: int| 0 <= k < self.down@.len() && self.down@[k] == x;
                assert(fd@[k + 1] == x);
                assert(f.ensures((&fd@[k + 1],), keeps(f, fd@[k + 1])));
            }
        }
        if lrs.len() > 0 {
            let first = lrs[0];
            let rest = tail_vec(&lrs);
            Some(Stack { focus: first, up: ups, down: rest })
        } else if ups.len() > 0 {
            let first = ups[0];
            let rest = tail_vec(&ups);
            Some(Stack { focus: first, up: rest, down: Vec::new() })
        } else {
            None
        }
    }

    /// Move the focus to the next element in the `up` list
    pub fn focus_up(&self) -> (r: Stack<T>)
        ensures
            r@ == self@.focus_up(),
    {
        if self.up.len() == 0 {
            let mut fd: Vec<T> = Vec::new();
            fd.push(self.focus);
            let fd = concat_vec(&fd, &self.down);
            let tmp = reversed_vec(&fd);
            let xs = tail_vec(&tmp);
            assert(fd@ =~= seq![self.focus] + self.down@);
            Stack { focus: tmp[0], up: xs, down: Vec::new() }
        } else {
            let mut fd: Vec<T> = Vec::new();
            fd.push(self.focus);
            let down = concat_vec(&fd, &self.down);
            let up = tail_vec(&self.up);
            assert(fd@ =~= seq![self.focus]);
            Stack { focus: self.up[0], up: up, down: down }
        }
    }

    /// Move the focus down
    pub fn focus_down(&self) -> (r: Stack<T>)
        ensures
            r@ == self@.focus_down(),
    {
        self.reverse().focus_up().reverse()
    }

    /// Exchange the focused element with the one above it; at the top, the
    /// focused element wraps around to the bottom.
    pub fn swap_up(&self) -> (r: Stack<T>)
        ensures
            r@ == self@.swap_up(),
    {
        if self.up.len() == 0 {
            Stack { focus: self.focus, up: reversed_vec(&self.down), down: Vec::new() }
        } else {
            let x = self.up[0];
            let xs = tail_vec(&self.up);
            let mut one: Vec<T> = Vec::new();
            one.push(x);
            let rs = concat_vec(&one, &self.down);
            assert(one@ =~= seq![x]);
            Stack { focus: self.focus, up: xs, down: rs }
        }
    }

    /// Exchange the focused element with the one below it; at the bottom,
    /// the focused element wraps around to the top.
    pub fn swap_down(&self) -> (r: Stack<T>)
        ensures
            r@ == self@.swap_down(),
    {
        self.reverse().swap_up().reverse()
    }

    /// Move the focused element to the top of the stack.
    pub fn swap_master(&self) -> (r: Stack<T>)
        ensures
            r@ == self@.swap_master(),
    {
        if self.up.len() == 0 {
            return Stack { focus: self.focus, up: copy_vec(&self.up), down: copy_vec(&self.down) };
        }
        let r = reversed_vec(&self.up);
        let x = r[0];
        let xs = tail_vec(&r);
        let mut one: Vec<T> = Vec::new();
        one.push(x);
        let tail = concat_vec(&one, &self.down);
        let rs = concat_vec(&xs, &tail);
        assert(one@ =~= seq![x]);
        assert(rs@ =~= r@.drop_first() + seq![r@[0]] + self.down@);
        Stack { focus: self.focus, up: Vec::new(), down: rs }
    }

    /// Reverse the stack by exchanging
    /// the `up` and `down` lists
    pub fn reverse(&self) -> (r: Stack<T>)
        ensures
            r@ == self@.reverse(),
    {
        Stack { focus: self.focus, up: copy_vec(&self.down), down: copy_vec(&self.up) }
    }

    /// Return the number of elements tracked by the stack
    pub fn len(&self) -> (r: usize)
        requires
            self@.len() <= usize::MAX,
        ensures
            r == self@.len(),
    {
        1 + self.up.len() + self.down.len()
    }

    /// Checks if the given window is tracked by the stack
    pub fn contains(&self, window: T) -> (r: bool)
        ensures
            vstd::laws_eq::obeys_concrete_eq::<T>() ==> r == self@.contains(window),
    {
        proof {
            reveal(vstd::laws_eq::obeys_concrete_eq);
        }
        if self.focus == window {
            return true;
        }
        let mut i: usize = 0;
        while i < self.up.len()
            invariant
                i <= self.up.len(),
                vstd::laws_eq::obeys_concrete_eq::<T>() ==> self.focus != window,
                vstd::laws_eq::obeys_concrete_eq::<T>() ==> forall|k: int| 0 <= k < i ==> self.up@[k] != window,
            decreases self.up.len() - i,
        {
            proof {
                reveal(vstd::laws_eq::obeys_concrete_eq);
            }
            if self.up[i] == window {
                assert(vstd::laws_eq::obeys_concrete_eq::<T>() ==> self.up@[i as int] == window);
                return true;
            }
            i = i + 1;
        }
        let mut j: usize = 0;
        while j < self.down.len()
            invariant
                j <= self.down.len(),
                vstd::laws_eq::obeys_concrete_eq::<T>() ==> self.focus != window,
                vstd::laws_eq::obeys_concrete_eq::<T>() ==> forall|k: int| 0 <= k < self.up@.len() ==> self.up@[k] != window,
                vstd::laws_eq::obeys_concrete_eq::<T>() ==> forall|k: int| 0 <= k < j ==> self.down@[k] != window,
            decreases self.down.len() - j,
        {
            proof {
                reveal(vstd::laws_eq::obeys_concrete_eq);
            }
            if self.down[j] == window {
                assert(vstd::laws_eq::obeys_concrete_eq::<T>() ==> self.down@[j as int] == window);
                return true;
            }
            j = j + 1;
        }
        false
    }
}


/// Reversing a sequence and filtering it commute.
pub proof fn lemma_reverse_filter<T>(s: Seq<T>, p: spec_fn(T) -> bool)
    ensures
        s.reverse().filter(p) == s.filter(p).reverse(),
    decreases s.len(),
{
    reveal_with_fuel(Seq::filter, 1);
    if s.len() == 0 {
        assert(s.reverse() =~= s);
        assert(s.filter(p).reverse() =~= s.filter(p));
    } else {
        let t = s.drop_first();
        lemma_reverse_filter(t, p);
        assert(s =~= seq![s[0]] + t);
        assert(s.reverse() =~= t.reverse() + seq![s[0]]);
        Seq::filter_distributes_over_add(t.reverse(), seq![s[0]], p);
        Seq::filter_distributes_over_add(seq![s[0]], t, p);
        assert(seq![s[0]].filter(p) == if p(s[0]) { seq![s[0]] } else { Seq::<T>::empty() }) by {
            reveal_with_fuel(Seq::filter, 2);
            assert(seq![s[0]].drop_last() =~= Seq::<T>::empty());
        }
        let ft = t.filter(p);
        if p(s[0]) {
            assert((seq![s[0]] + ft).reverse() =~= ft.reverse() + seq![s[0]]);
        } else {
            assert(Seq::<T>::empty() + ft =~= ft);
            assert(ft.reverse() + Seq::<T>::empty() =~= ft.reverse());
        }
    }
}

/// Moving the focus up keeps the elements and their order.
pub proof fn lemma_focus_up_integrate<T>(s: Zipper<T>)
    ensures
        s.focus_up().integrate() == s.integrate(),
{
    if s.up.len() == 0 {
        let fd = seq![s.focus] + s.down;
        let tmp = fd.reverse();
        assert(tmp.drop_first().reverse() + seq![tmp[0]] =~= fd);
        assert(s.up.reverse() =~= Seq::<T>::empty());
        assert(s.focus_up().integrate() =~= tmp.drop_first().reverse() + seq![tmp[0]] + Seq::<T>::empty());
        assert(s.integrate() =~= fd);
    } else {
        assert(s.up.drop_first().reverse() + seq![s.up[0]] =~= s.up.reverse());
        assert(s.focus_up().integrate() =~= s.integrate());
    }
}

/// Moving the focus down keeps the elements and their order.
pub proof fn lemma_focus_down_integrate<T>(s: Zipper<T>)
    ensures
        s.focus_down().integrate() == s.integrate(),
{
    lemma_reverse_integrate(s);
    lemma_focus_up_integrate(s.reverse());
    lemma_reverse_integrate(s.reverse().focus_up());
    assert(s.integrate().reverse().reverse() =~= s.integrate());
}

/// Reversing a stack reverses its flattened list.
pub proof fn lemma_reverse_integrate<T>(s: Zipper<T>)
    ensures
        s.reverse().integrate() == s.integrate().reverse(),
{
    assert(s.down.reverse().reverse() =~= s.down);
    assert(s.reverse().integrate() =~= s.integrate().reverse());
}

/// Reversing twice gives the stack back.
pub proof fn lemma_reverse_reverse<T>(s: Zipper<T>)
    ensures
        s.reverse().reverse() == s,
{
    assert(s.reverse().reverse() =~= s);
}

/// Moving the focus down undoes moving it up.
pub proof fn lemma_focus_up_down<T>(s: Zipper<T>)
    ensures
        s.focus_up().focus_down() == s,
{
    let u = s.focus_up();
    if s.up.len() == 0 {
        let fd = seq![s.focus] + s.down;
        let tmp = fd.reverse();
        if s.down.len() == 0 {
            assert(u.reverse().focus_up().reverse() =~= s);
        } else {
            let r = u.reverse();
            assert(r.up.len() == 0);
            let fd2 = seq![r.focus] + r.down;
            assert(fd2 =~= tmp);
            assert(fd2.reverse() =~= fd);
            assert(r.focus_up().reverse() =~= s);
        }
    } else {
        let r = u.reverse();
        assert(r.up.len() > 0);
        assert(r.focus_up().reverse() =~= s);
    }
}

/// Moving the focus up undoes moving it down.
pub proof fn lemma_focus_down_up<T>(s: Zipper<T>)
    ensures
        s.focus_down().focus_up() == s,
{
    lemma_focus_up_down(s.reverse());
    lemma_reverse_reverse(s.reverse().focus_up());
    lemma_reverse_reverse(s);
    assert(s.focus_down().focus_up() == s.reverse().focus_up().focus_down().reverse());
}

/// Swapping down undoes swapping up.
pub proof fn lemma_swap_up_down<T>(s: Zipper<T>)
    ensures
        s.swap_up().swap_down() == s,
{
    let u = s.swap_up();
    if s.up.len() == 0 {
        assert(s.down.reverse().reverse() =~= s.down);
        assert(u.reverse().swap_up().reverse() =~= s);
    } else {
        assert(u.reverse().swap_up().reverse() =~= s);
    }
}

/// Swapping up undoes swapping down.
pub proof fn lemma_swap_down_up<T>(s: Zipper<T>)
    ensures
        s.swap_down().swap_up() == s,
{
    lemma_swap_up_down(s.reverse());
    lemma_reverse_reverse(s.reverse().swap_up());
    lemma_reverse_reverse(s);
    assert(s.swap_down().swap_up() == s.reverse().swap_up().swap_down().reverse());
}

/// The number of elements is the length of the flattened list, and an
/// element is in the stack exactly when it is in that list.
pub proof fn lemma_integrate_len_contains<T>(s: Zipper<T>, x: T)
    ensures
        s.integrate().len() == s.len(),
        s.contains(x) <==> s.integrate().contains(x),
{
    let i = s.integrate();
    let ur = s.up.reverse();
    if s.up.contains(x) {
        let k = choose|k: int| 0 <= k < s.up.len() && s.up[k] == x;
        assert(i[s.up.len() - 1 - k] == x);
    }
    if s.down.contains(x) {
        let k = choose|k: int| 0 <= k < s.down.len() && s.down[k] == x;
        assert(i[s.up.len() + 1 + k] == x);
    }
    if s.focus == x {
        assert(i[s.up.len() as int] == x);
    }
    if i.contains(x) {
        let k = choose|k: int| 0 <= k < i.len() && i[k] == x;
        if k < s.up.len() {
            assert(s.up[s.up.len() - 1 - k] == x);
        } else if k > s.up.len() {
            assert(s.down[k - s.up.len() - 1] == x);
        }
    }
}

/// Filtering a stack filters its flattened list; nothing is left exactly
/// when no element satisfies the predicate.
pub proof fn lemma_filter_integrate<T>(s: Zipper<T>, p: spec_fn(T) -> bool)
    ensures
        s.filter(p) is None <==> s.integrate().filter(p).len() == 0,
        s.filter(p) matches Some(z) ==> z.integrate() == s.integrate().filter(p),
{
    let fd = seq![s.focus] + s.down;
    let lrs = fd.filter(p);
    let ups = s.up.filter(p);
    lemma_reverse_filter(s.up, p);
    assert(s.integrate() =~= s.up.reverse() + fd);
    Seq::filter_distributes_over_add(s.up.reverse(), fd, p);
    assert(s.integrate().filter(p) == ups.reverse() + lrs);
    if lrs.len() > 0 {
        let z = s.filter(p).unwrap();
        assert(z.integrate() =~= ups.reverse() + lrs);
    } else if ups.len() > 0 {
        let z = s.filter(p).unwrap();
        assert(z.integrate() =~= ups.reverse() + lrs);
    } else {
        assert(ups.reverse().len() == 0);
    }
}

/// Swapping keeps the focused element and the number of elements; the
/// elements themselves are only rearranged.
pub proof fn lemma_swaps_permute<T>(s: Zipper<T>)
    ensures
        s.swap_up().focus == s.focus,
        s.swap_down().focus == s.focus,
        s.swap_master().focus == s.focus,
        s.swap_up().integrate().to_multiset() == s.integrate().to_multiset(),
        s.swap_down().integrate().to_multiset() == s.integrate().to_multiset(),
        s.swap_master().integrate().to_multiset() == s.integrate().to_multiset(),
{
    lemma_swap_up_multiset(s);
    lemma_swap_up_multiset(s.reverse());
    lemma_reverse_integrate(s);
    lemma_reverse_integrate(s.reverse().swap_up());
    s.integrate().lemma_reverse_to_multiset();
    s.reverse().swap_up().integrate().lemma_reverse_to_multiset();
    if s.up.len() > 0 {
        let r = s.up.reverse();
        let f = seq![s.focus];
        let x = seq![r[0]];
        let xs = r.drop_first();
        assert(s.integrate() =~= x + (xs + (f + s.down)));
        assert(s.swap_master().integrate() =~= f + (xs + (x + s.down)));
        vstd::seq_lib::lemma_multiset_commutative(x, xs + (f + s.down));
        vstd::seq_lib::lemma_multiset_commutative(xs, f + s.down);
        vstd::seq_lib::lemma_multiset_commutative(f, s.down);
        vstd::seq_lib::lemma_multiset_commutative(f, xs + (x + s.down));
        vstd::seq_lib::lemma_multiset_commutative(xs, x + s.down);
        vstd::seq_lib::lemma_multiset_commutative(x, s.down);
        broadcast use vstd::multiset::group_multiset_axioms;
        assert(s.swap_master().integrate().to_multiset() =~= s.integrate().to_multiset());
    }
}

proof fn lemma_swap_up_multiset<T>(s: Zipper<T>)
    ensures
        s.swap_up().integrate().to_multiset() == s.integrate().to_multiset(),
{
    broadcast use vstd::multiset::group_multiset_axioms;
    let f = seq![s.focus];
    if s.up.len() == 0 {
        assert(s.down.reverse().reverse() =~= s.down);
        assert(s.integrate() =~= f + s.down);
        assert(s.swap_up().integrate() =~= s.down + f);
        vstd::seq_lib::lemma_seq_union_to_multiset_commutative(f, s.down);
    } else {
        let u = s.up.drop_first();
        let x = seq![s.up[0]];
        let ur = u.reverse();
        assert(s.up.reverse() =~= ur + x);
        assert(s.integrate() =~= ur + (x + (f + s.down)));
        assert(s.swap_up().integrate() =~= ur + (f + (x + s.down)));
        vstd::seq_lib::lemma_multiset_commutative(ur, x + (f + s.down));
        vstd::seq_lib::lemma_multiset_commutative(x, f + s.down);
        vstd::seq_lib::lemma_multiset_commutative(f, s.down);
        vstd::seq_lib::lemma_multiset_commutative(ur, f + (x + s.down));
        vstd::seq_lib::lemma_multiset_commutative(f, x + s.down);
        vstd::seq_lib::lemma_multiset_commutative(x, s.down);
        assert(s.swap_up().integrate().to_multiset() =~= s.integrate().to_multiset());
    }
}

/// Filtering with two predicates that agree on every element gives the
/// same result.
pub proof fn lemma_seq_filter_congruent<T>(s: Seq<T>, p: spec_fn(T) -> bool, q: spec_fn(T) -> bool)
    requires
        forall|i: int| 0 <= i < s.len() ==> p(#[trigger] s[i]) == q(s[i]),
    ensures
        s.filter(p) == s.filter(q),
    decreases s.len(),
{
    reveal_with_fuel(Seq::filter, 1);
    if s.len() > 0 {
        assert forall|i: int| 0 <= i < s.drop_last().len() implies p(#[trigger] s.drop_last()[i]) == q(
            s.drop_last()[i],
        ) by {
            assert(s.drop_last()[i] == s[i]);
        }
        lemma_seq_filter_congruent(s.drop_last(), p, q);
        assert(p(s[s.len() - 1]) == q(s[s.len() - 1]));
    }
}

/// Filtering a stack with two predicates that agree on its elements gives
/// the same result.
pub proof fn lemma_filter_congruent<T>(z: Zipper<T>, p: spec_fn(T) -> bool, q: spec_fn(T) -> bool)
    requires
        forall|x: T| z.contains(x) ==> p(x) == q(x),
    ensures
        z.filter(p) == z.filter(q),
{
    let fd = seq![z.focus] + z.down;
    assert forall|i: int| 0 <= i < fd.len() implies p(#[trigger] fd[i]) == q(fd[i]) by {
        if i > 0 {
            assert(fd[i] == z.down[i - 1]);
            assert(z.down.contains(fd[i]));
        }
        assert(z.contains(fd[i]));
    }
    assert forall|i: int| 0 <= i < z.up.len() implies p(#[trigger] z.up[i]) == q(z.up[i]) by {
        assert(z.up.contains(z.up[i]));
        assert(z.contains(z.up[i]));
    }
    lemma_seq_filter_congruent(fd, p, q);
    lemma_seq_filter_congruent(z.up, p, q);
}

/// Filtering with a predicate that holds of every element keeps the
/// sequence.
pub proof fn lemma_seq_filter_all<T>(s: Seq<T>, p: spec_fn(T) -> bool)
    requires
        forall|i: int| 0 <= i < s.len() ==> p(#[trigger] s[i]),
    ensures
        s.filter(p) == s,
    decreases s.len(),
{
    reveal_with_fuel(Seq::filter, 1);
    if s.len() > 0 {
        assert forall|i: int| 0 <= i < s.drop_last().len() implies p(#[trigger] s.drop_last()[i]) by {
            assert(s.drop_last()[i] == s[i]);
        }
        lemma_seq_filter_all(s.drop_last(), p);
        assert(p(s[s.len() - 1]));
        assert(s.drop_last().push(s.last()) =~= s);
    } else {
        assert(s.filter(p) =~= s);
    }
}

/// Filtering with a predicate that holds of every element keeps the stack.
pub proof fn lemma_filter_all<T>(z: Zipper<T>, p: spec_fn(T) -> bool)
    requires
        forall|x: T| z.contains(x) ==> p(x),
    ensures
        z.filter(p) == Some(z),
{
    let fd = seq![z.focus] + z.down;
    assert forall|i: int| 0 <= i < fd.len() implies p(#[trigger] fd[i]) by {
        if i > 0 {
            assert(fd[i] == z.down[i - 1]);
            assert(z.down.contains(fd[i]));
        }
        assert(z.contains(fd[i]));
    }
    assert forall|i: int| 0 <= i < z.up.len() implies p(#[trigger] z.up[i]) by {
        assert(z.up.contains(z.up[i]));
        assert(z.contains(z.up[i]));
    }
    lemma_seq_filter_all(fd, p);
    lemma_seq_filter_all(z.up, p);
    assert(fd.drop_first() =~= z.down);
    assert(z.filter(p).unwrap() =~= z);
}

/// Repeatedly moves the focus up, at most `fuel` times, until `w` is
/// focused.
pub open spec fn focus_up_until<T>(z: Zipper<T>, w: T, fuel: nat) -> Zipper<T>
    decreases fuel,
{
    if fuel == 0 || z.focus == w {
        z
    } else {
        focus_up_until(z.focus_up(), w, (fuel - 1) as nat)
    }
}

/// How many moves up the focus needs from its place to position `p` of the
/// flattened list, wrapping around at the top.
pub open spec fn distance_up<T>(z: Zipper<T>, p: int) -> nat {
    if z.up.len() >= p {
        (z.up.len() - p) as nat
    } else {
        (z.up.len() + z.len() - p) as nat
    }
}

/// The focus sits at position `up.len()` of the flattened list.
pub proof fn lemma_focus_position<T>(z: Zipper<T>)
    ensures
        z.integrate()[z.up.len() as int] == z.focus,
        z.integrate().len() == z.len(),
{
}

/// Moving the focus up moves its position in the flattened list one step
/// up, from the top to the bottom.
pub proof fn lemma_focus_up_position<T>(z: Zipper<T>)
    ensures
        z.focus_up().up.len() == if z.up.len() > 0 {
            z.up.len() - 1
        } else {
            z.len() - 1
        },
        z.focus_up().len() == z.len(),
{
}

/// Moving the focus up often enough reaches any element of the stack, and
/// keeps the flattened list.
pub proof fn lemma_focus_up_until<T>(z: Zipper<T>, w: T, p: int, fuel: nat)
    requires
        0 <= p < z.len(),
        z.integrate()[p] == w,
        fuel >= distance_up(z, p),
    ensures
        focus_up_until(z, w, fuel).focus == w,
        focus_up_until(z, w, fuel).integrate() == z.integrate(),
    decreases fuel,
{
    lemma_focus_position(z);
    if fuel == 0 || z.focus == w {
    } else {
        let u = z.focus_up();
        lemma_focus_up_integrate(z);
        lemma_focus_up_position(z);
        lemma_focus_position(u);
        if distance_up(z, p) == 0 {
            assert(z.up.len() == p);
        }
        lemma_focus_up_until(u, w, p, (fuel - 1) as nat);
    }
}

/// Moving the focus down moves its position in the flattened list one step
/// down, from the bottom to the top.
pub proof fn lemma_focus_down_position<T>(z: Zipper<T>)
    ensures
        z.focus_down().up.len() == if z.down.len() > 0 {
            z.up.len() + 1
        } else {
            0
        },
        z.focus_down().len() == z.len(),
{
}

/// Swapping with the master exchanges the focused element with the one at
/// the top; every other element keeps its place, and the focus ends at the
/// top. With the focus already at the top nothing changes.
pub proof fn lemma_swap_master_integrate<T>(s: Zipper<T>)
    ensures
        s.up.len() == 0 ==> s.swap_master() == s,
        s.up.len() > 0 ==> s.swap_master().integrate() == s.integrate().update(0, s.focus).update(
            s.up.len() as int,
            s.integrate()[0],
        ),
        s.swap_master().focus == s.focus,
        s.swap_master().up.len() == 0,
{
    if s.up.len() > 0 {
        let p = s.up.len() as int;
        let i = s.integrate();
        let j = s.swap_master().integrate();
        let e = i.update(0, s.focus).update(p, i[0]);
        assert(j.len() == e.len());
        assert forall|k: int| 0 <= k < j.len() implies j[k] == e[k] by {
            if k == 0 {
            } else if k < p {
                assert(j[k] == s.up.reverse()[k]);
            } else if k == p {
                assert(i[0] == s.up.reverse()[0]);
            } else {
            }
        }
        assert(j =~= e);
    }
}

/// Swapping up exchanges the focused element with the one just above it,
/// every other element keeping its place; at the top, the focused element
/// goes to the bottom and the others move up one place.
pub proof fn lemma_swap_up_integrate<T>(s: Zipper<T>)
    ensures
        s.up.len() > 0 ==> s.swap_up().integrate() == s.integrate().update(s.up.len() - 1, s.focus).update(
            s.up.len() as int,
            s.integrate()[s.up.len() - 1],
        ) && s.swap_up().up.len() == s.up.len() - 1,
        s.up.len() == 0 ==> s.swap_up().integrate() == s.integrate().drop_first().push(s.focus)
            && s.swap_up().up.len() == s.down.len(),
        s.swap_up().focus == s.focus,
{
    let p = s.up.len() as int;
    let i = s.integrate();
    let j = s.swap_up().integrate();
    if p > 0 {
        let e = i.update(p - 1, s.focus).update(p, i[p - 1]);
        assert(j.len() == e.len());
        assert forall|k: int| 0 <= k < j.len() implies j[k] == e[k] by {
            if k < p - 1 {
                assert(j[k] == s.up.drop_first().reverse()[k]);
                assert(i[k] == s.up.reverse()[k]);
            } else if k == p - 1 {
            } else if k == p {
                assert(i[p - 1] == s.up.reverse()[p - 1]);
            } else {
            }
        }
        assert(j =~= e);
    } else {
        assert(s.down.reverse().reverse() =~= s.down);
        assert(j =~= i.drop_first().push(s.focus));
    }
}

/// Swapping down exchanges the focused element with the one just below it,
/// every other element keeping its place; at the bottom, the focused
/// element goes to the top and the others move down one place.
pub proof fn lemma_swap_down_integrate<T>(s: Zipper<T>)
    ensures
        s.down.len() > 0 ==> s.swap_down().integrate() == s.integrate().update(s.up.len() + 1int, s.focus).update(
            s.up.len() as int,
            s.integrate()[s.up.len() + 1int],
        ) && s.swap_down().up.len() == s.up.len() + 1,
        s.down.len() == 0 ==> s.swap_down().integrate() == seq![s.focus] + s.integrate().drop_last()
            && s.swap_down().up.len() == 0,
        s.swap_down().focus == s.focus,
{
    let p = s.up.len() as int;
    let i = s.integrate();
    let j = s.swap_down().integrate();
    if s.down.len() > 0 {
        let e = i.update(p + 1, s.focus).update(p, i[p + 1]);
        assert(j.len() == e.len());
        assert forall|k: int| 0 <= k < j.len() implies j[k] == e[k] by {
            if k < p {
                assert(j[k] == s.up.reverse()[k]);
            } else if k == p {
            } else if k == p + 1 {
            } else {
                assert(j[k] == s.down.drop_first()[k - p - 2]);
            }
        }
        assert(j =~= e);
    } else {
        assert(s.up.reverse().reverse() =~= s.up);
        assert(j =~= seq![s.focus] + i.drop_last());
    }
}

/// Adding an element focuses it in the focus's place; the old focus goes to
/// the bottom and every other element keeps its place.
pub proof fn lemma_add_integrate<T>(s: Zipper<T>, t: T)
    ensures
        s.add(t).focus == t,
        s.add(t).integrate() == s.integrate().update(s.up.len() as int, t).push(s.focus),
{
    assert(s.add(t).integrate() =~= s.integrate().update(s.up.len() as int, t).push(s.focus));
}

/// Filtering keeps the focus when the focus is kept.
pub proof fn lemma_filter_keeps_focus<T>(s: Zipper<T>, p: spec_fn(T) -> bool)
    requires
        p(s.focus),
    ensures
        s.filter(p) matches Some(z) && z.focus == s.focus,
{
    let fd = seq![s.focus] + s.down;
    assert(fd.drop_first() =~= s.down);
    assert(fd =~= seq![s.focus] + fd.drop_first());
    Seq::filter_distributes_over_add(seq![s.focus], s.down, p);
    reveal_with_fuel(Seq::filter, 2);
    assert(seq![s.focus].drop_last() =~= Seq::<T>::empty());
    assert(seq![s.focus].filter(p) =~= seq![s.focus]);
}

} // verus!
