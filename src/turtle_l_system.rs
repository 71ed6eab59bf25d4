//! How a turtle reads the characters of an L-system string.
use vstd::prelude::*;

verus! {

/// What a character tells the turtle to do.
#[derive(Debug, Clone, Copy, PartialEq, Eq, Structural)]
pub enum TurtleCommand {
    Forward,
    Right,
    Left,
}

/// The characters that move the turtle forward or turn it.
pub struct Rules {
    pub forward: Vec<char>,
    pub left: Vec<char>,
    pub right: Vec<char>,
}

/// The command of `c`: forward before right before left; none for other characters.
pub open spec fn command_of(rules: &Rules, c: char) -> Option<TurtleCommand> {
    if rules.forward@.contains(c) {
        Some(TurtleCommand::Forward)
    } else if rules.right@.contains(c) {
        Some(TurtleCommand::Right)
    } else if rules.left@.contains(c) {
        Some(TurtleCommand::Left)
    } else {
        None
    }
}

fn holds(v: &Vec<char>, c: char) -> (b: bool)
    ensures
        b == v@.contains(c),
{
    let mut i: usize = 0;
    while i < v.len()
        invariant
            i <= v@.len(),
            forall|j: int| 0 <= j < i ==> v@[j] != c,
        decreases v@.len() - i,
    {
        if v[i] == c {
            return true;
        }
        i = i + 1;
    }
    false
}

impl Default for Rules {
    /// `f` forward, `-` left, `+` right.
    fn default() -> (r: Rules)
        ensures
            r.forward@ == seq!['f'],
            r.left@ == seq!['-'],
            r.right@ == seq!['+'],
    {
        Rules { forward: vec!['f'], left: vec!['-'], right: vec!['+'] }
    }
}

impl Rules {
    /// The default rules with the turns swapped: `+` left, `-` right.
    pub fn reversed() -> (r: Rules)
        ensures
            r.forward@ == seq!['f'],
            r.left@ == seq!['+'],
            r.right@ == seq!['-'],
    {
        Rules { forward: vec!['f'], left: vec!['+'], right: vec!['-'] }
    }

    /// What the turtle does on `c`.
    pub fn command(&self, c: char) -> (r: Option<TurtleCommand>)
        ensures
            r == command_of(self, c),
    {
        if holds(&self.forward, c) {
            Some(TurtleCommand::Forward)
        } else if holds(&self.right, c) {
            Some(TurtleCommand::Right)
        } else if holds(&self.left, c) {
            Some(TurtleCommand::Left)
        } else {
            None
        }
    }
}

} // verus!
