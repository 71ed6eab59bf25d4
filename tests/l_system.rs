use mandelbrot::hilbert_curve::{i_to_xy, last_two_bits};
use mandelbrot::l_system::{LStr, LSystem};
use mandelbrot::settings::Iterations;
use mandelbrot::turtle_l_system::{Rules, TurtleCommand};

#[test]
fn test_i_to_xy() {
    assert_eq!((0, 0), i_to_xy(0, 32));
}

#[test]
fn hilbert_points_of_a_four_square() {
    assert_eq!(i_to_xy(1, 2), (0, 1));
    assert_eq!(i_to_xy(4, 4), (0, 2));
    assert_eq!(i_to_xy(15, 4), (3, 0));
    assert_eq!(last_two_bits(0b1110), 2);
}

#[test]
fn test_l_system_iter() {
    let start = LStr::from("A");
    let rules = vec![('A', LStr::from("AB")), ('B', LStr::from("A"))];
    let l_system = LSystem::new(&start, &rules);

    let mut iter = l_system.iter();

    assert_eq!(iter.next(), Some(LStr::from("AB")));
    assert_eq!(iter.next(), Some(LStr::from("ABA")));
    assert_eq!(iter.next(), Some(LStr::from("ABAAB")));
    assert_eq!(iter.next(), Some(LStr::from("ABAABABA")));
}

#[test]
fn l_system_keeps_unmatched_characters_and_counts() {
    let start = LStr::from("AC");
    let rules = vec![('A', LStr::from("X")), ('A', LStr::from("AB"))];
    let l_system = LSystem::new(&start, &rules);
    let mut iter = l_system.iter();
    assert_eq!(iter.n(), 0);
    assert_eq!(iter.next(), Some(LStr::from("ABC")));
    assert_eq!(iter.n(), 1);
    let mut s = LStr::new();
    s.add_assign(LStr::from("x"));
    assert_eq!(s, LStr::from("x"));
}

#[test]
fn turtle_rules() {
    let rules = Rules::default();
    assert_eq!(rules.command('f'), Some(TurtleCommand::Forward));
    assert_eq!(rules.command('+'), Some(TurtleCommand::Right));
    assert_eq!(rules.command('-'), Some(TurtleCommand::Left));
    assert_eq!(rules.command('x'), None);
    let reversed = Rules::reversed();
    assert_eq!(reversed.command('+'), Some(TurtleCommand::Left));
    assert_eq!(reversed.command('-'), Some(TurtleCommand::Right));
}

#[test]
fn iterations_setting() {
    let it = Iterations::from(5);
    assert_eq!(it.value, 5);
    assert_eq!(it.min, 1);
    assert_eq!(it.max, u32::MAX);
    assert_eq!(it.step, 1);
}
