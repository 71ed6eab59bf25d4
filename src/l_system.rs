//! Lindenmayer systems: strings rewritten a generation at a time.
use vstd::prelude::*;
use vstd::string::StringExecFns;

verus! {

/// A string of an L-system.
#[derive(Debug, Clone, Eq, PartialEq, Hash)]
pub struct LStr(String);

impl View for LStr {
    type V = Seq<char>;

    closed spec fn view(&self) -> Seq<char> {
        self.0@
    }
}

/// Relies on `String::push`: appends one character.
#[verifier::external_body]
fn push_char(s: &mut String, c: char)
    ensures
        final(s)@ == old(s)@.push(c),
{
    s.push(c)
}

/// What a rule list makes of `c`: the replacement of the last rule for `c`,
/// or `c` itself where no rule names it.
pub open spec fn image(rules: Seq<(char, LStr)>, c: char) -> Seq<char>
    decreases rules.len(),
{
    if rules.len() == 0 {
        seq![c]
    } else if rules.last().0 == c {
        rules.last().1@
    } else {
        image(rules.drop_last(), c)
    }
}

/// One generation: every character of `s` replaced by its image.
pub open spec fn expand(rules: Seq<(char, LStr)>, s: Seq<char>) -> Seq<char>
    decreases s.len(),
{
    if s.len() == 0 {
        Seq::empty()
    } else {
        expand(rules, s.drop_last()) + image(rules, s.last())
    }
}

/// `n` generations from `s`.
pub open spec fn generation(rules: Seq<(char, LStr)>, s: Seq<char>, n: nat) -> Seq<char>
    decreases n,
{
    if n == 0 {
        s
    } else {
        expand(rules, generation(rules, s, (n - 1) as nat))
    }
}

impl LStr {
    /// The empty string.
    pub fn new() -> (s: LStr)
        ensures
            s@ == Seq::<char>::empty(),
    {
        LStr(String::new())
    }

    pub fn from(value: &str) -> (s: LStr)
        ensures
            s@ == value@,
    {
        LStr(String::from_str(value))
    }

    pub fn from_string(value: String) -> (s: LStr)
        ensures
            s@ == value@,
    {
        LStr(value)
    }

    /// A copy with the same characters.
    pub fn duplicate(&self) -> (s: LStr)
        ensures
            s@ == self@,
    {
        LStr(self.0.clone())
    }

    pub fn as_str(&self) -> (s: &str)
        ensures
            s@ == self@,
    {
        self.0.as_str()
    }

    pub fn chars(&self) -> std::str::Chars<'_> {
        self.0.as_str().chars()
    }

    /// Appends `rhs`.
    pub fn add_assign(&mut self, rhs: LStr)
        ensures
            final(self)@ == old(self)@ + rhs@,
    {
        self.0.append(rhs.0.as_str());
    }
}

/// Finds the image of `c` under `rules` and appends it to `out`.
fn push_image(out: &mut String, rules: &Vec<(char, LStr)>, c: char)
    ensures
        final(out)@ == old(out)@ + image(rules@, c),
{
    let ghost before = out@;
    let mut i = rules.len();
    assert(rules@.take(i as int) =~= rules@);
    while i > 0
        invariant
            i <= rules@.len(),
            out@ == before,
            before == old(out)@,
            image(rules@, c) == image(rules@.take(i as int), c),
        decreases i,
    {
        assert(rules@.take(i as int).drop_last() =~= rules@.take(i - 1));
        if rules[i - 1].0 == c {
            assert(rules@.take(i as int).last() == rules@[i - 1]);
            out.append(rules[i - 1].1.as_str());
            return;
        }
        i = i - 1;
    }
    assert(rules@.take(0) =~= Seq::<(char, LStr)>::empty());
    push_char(out, c);
    assert(out@ =~= before + seq![c]);
}

/// An L-system: a start string and rewriting rules, `(character, replacement)`;
/// where two rules name one character, the later one applies.
pub struct LSystem<'a> {
    start: &'a LStr,
    rules: &'a Vec<(char, LStr)>,
}

impl<'a> LSystem<'a> {
    pub fn new(start: &'a LStr, rules: &'a Vec<(char, LStr)>) -> (l: Self)
        ensures
            l.start() == start@,
            l.rules() == rules@,
    {
        Self { start, rules }
    }

    pub closed spec fn start(&self) -> Seq<char> {
        self.start@
    }

    pub closed spec fn rules(&self) -> Seq<(char, LStr)> {
        self.rules@
    }

    /// The generations of this system, from the start string.
    pub fn iter(&'a self) -> (it: LSystemIter<'a>)
        ensures
            it.system() == *self,
            it.count() == 0,
            it.current() == self.start(),
    {
        LSystemIter::new(self)
    }

    /// One generation of `s` under this system's rules.
    pub fn rewrite(&self, s: &LStr) -> (r: LStr)
        ensures
            r@ == expand(self.rules(), s@),
    {
        let mut out = String::new();
        for c in it: s.0.as_str().chars()
            invariant
                it.seq() == s@,
                out@ == expand(self.rules(), s@.take(it.index())),
        {
            assert(s@.take(it.index() + 1).drop_last() =~= s@.take(it.index()));
            push_image(&mut out, self.rules, c);
        }
        assert(s@.take(s@.len() as int) =~= s@);
        LStr(out)
    }
}

/// Walks the generations of an L-system.
pub struct LSystemIter<'a> {
    l_system: &'a LSystem<'a>,
    current: LStr,
    n: usize,
}

impl<'a> LSystemIter<'a> {
    pub closed spec fn system(&self) -> LSystem<'a> {
        *self.l_system
    }

    /// The latest generation handed out, the start string at first.
    pub closed spec fn current(&self) -> Seq<char> {
        self.current@
    }

    /// How many generations have been handed out.
    pub closed spec fn count(&self) -> nat {
        self.n as nat
    }

    pub fn new(l_system: &'a LSystem<'a>) -> (it: Self)
        ensures
            it.system() == *l_system,
            it.count() == 0,
            it.current() == l_system.start(),
    {
        Self { l_system, current: l_system.start.duplicate(), n: 0 }
    }

    pub fn n(&self) -> (n: usize)
        ensures
            n == self.count(),
    {
        self.n
    }

    /// The next generation.
    pub fn next(&mut self) -> (r: Option<LStr>)
        requires
            old(self).count() < usize::MAX,
        ensures
            final(self).system() == old(self).system(),
            final(self).count() == old(self).count() + 1,
            final(self).current() == expand(old(self).system().rules(), old(self).current()),
            r is Some && r->0@ == final(self).current(),
    {
        let next = self.l_system.rewrite(&self.current);
        self.current = next.duplicate();
        self.n = self.n + 1;
        Some(next)
    }
}

} // verus!
