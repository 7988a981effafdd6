use vstd::prelude::*;

verus! {

/// The text a bounded field holds after `c` is pushed: appended while the
/// field has room, unchanged once it is full.
pub open spec fn pushed(s: Seq<char>, c: char, cap: nat) -> Seq<char> {
    if s.len() < cap {
        s.push(c)
    } else {
        s
    }
}

/// The text a bounded field holds after a pop: the last character removed,
/// an empty field left as it is.
pub open spec fn popped(s: Seq<char>) -> Seq<char> {
    if s.len() > 0 {
        s.drop_last()
    } else {
        s
    }
}

/// Relies on `String::push`: appends one character at the end.
#[verifier::external_body]
fn push_char(s: &mut String, c: char)
    ensures
        final(s)@ == old(s)@.push(c),
{
    s.push(c)
}

/// A text buffer of fixed capacity `MAX_LENGTH`; characters pushed while it is
/// full are dropped.
#[derive(Debug, Clone, Copy)]
pub struct StringArray<const MAX_LENGTH: usize> {
    len: usize,
    array: [char; MAX_LENGTH],
}

impl<const MAX_LENGTH: usize> View for StringArray<MAX_LENGTH> {
    type V = Seq<char>;

    closed spec fn view(&self) -> Seq<char> {
        self.array@.subrange(0, self.len as int)
    }
}

impl<const MAX_LENGTH: usize> StringArray<MAX_LENGTH> {
    #[verifier::type_invariant]
    spec fn inv(self) -> bool {
        self.len <= MAX_LENGTH
    }

    pub fn new() -> (r: Self)
        ensures
            r@ == Seq::<char>::empty(),
    {
        let r = Self { len: 0, array: ['0'; MAX_LENGTH] };
        assert(r@ =~= Seq::<char>::empty());
        r
    }

    /// Appends `c` when there is room; a full buffer is left unchanged.
    pub fn push(&mut self, c: char)
        ensures
            final(self)@ == pushed(old(self)@, c, MAX_LENGTH as nat),
    {
        proof {
            use_type_invariant(&*self);
        }
        if self.len < MAX_LENGTH {
            let ghost before = self@;
            self.array[self.len] = c;
            self.len = self.len + 1;
            assert(self@ =~= before.push(c));
        }
    }

    /// Removes the last character; an empty buffer is left unchanged.
    pub fn pop(&mut self)
        ensures
            final(self)@ == popped(old(self)@),
    {
        proof {
            use_type_invariant(&*self);
        }
        if self.len > 0 {
            let ghost before = self@;
            self.len = self.len - 1;
            assert(self@ =~= before.drop_last());
        }
    }

    /// Removes every character.
    pub fn clear(&mut self)
        ensures
            final(self)@ == Seq::<char>::empty(),
    {
        self.len = 0;
        assert(self@ =~= Seq::<char>::empty());
    }

    /// The number of characters held, never more than the capacity.
    pub fn len(&self) -> (r: usize)
        ensures
            r == self@.len(),
            r <= MAX_LENGTH,
    {
        proof {
            use_type_invariant(self);
        }
        self.len
    }

    pub fn is_empty(&self) -> (r: bool)
        ensures
            r == (self@.len() == 0),
    {
        proof {
            use_type_invariant(self);
        }
        self.len == 0
    }

    /// The characters held, oldest first.
    pub fn chars(&self) -> (r: Vec<char>)
        ensures
            r@ == self@,
    {
        proof {
            use_type_invariant(self);
        }
        let mut r: Vec<char> = Vec::new();
        let mut i: usize = 0;
        while i < self.len
            invariant
                self.len <= MAX_LENGTH,
                i <= self.len,
                r@ == self@.subrange(0, i as int),
            decreases self.len - i,
        {
            r.push(self.array[i]);
            i = i + 1;
            assert(r@ =~= self@.subrange(0, i as int));
        }
        assert(r@ =~= self@);
        r
    }

    /// The characters held, as a `String`.
    pub fn to_string(&self) -> (r: String)
        ensures
            r@ == self@,
    {
        proof {
            use_type_invariant(self);
        }
        let mut r = String::new();
        let mut i: usize = 0;
        while i < self.len
            invariant
                self.len <= MAX_LENGTH,
                i <= self.len,
                r@ == self@.subrange(0, i as int),
            decreases self.len - i,
        {
            push_char(&mut r, self.array[i]);
            i = i + 1;
            assert(r@ =~= self@.subrange(0, i as int));
        }
        assert(r@ =~= self@);
        r
    }
}

} // verus!

verus! {

/// A push on a full field leaves its length as it is; a push never takes a
/// field past its capacity; a pop on an empty field leaves it empty.
pub proof fn lemma_bounded_field(s: Seq<char>, c: char, cap: nat)
    ensures
        s.len() >= cap ==> pushed(s, c, cap).len() == s.len(),
        s.len() <= cap ==> pushed(s, c, cap).len() <= cap,
        s.len() == 0 ==> popped(s).len() == 0,
        popped(s).len() <= s.len(),
{
}

} // verus!
