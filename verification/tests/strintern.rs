use skald::strintern::{Interner, Symbol};

#[test]
fn intern_equal_strings_are_equal() {
    let mut interner = Interner::new();

    // intern two strings that are both owned, so
    // we know they are separate allocations.
    let x1: Symbol = interner.intern(&String::from("x"));
    let x2: Symbol = interner.intern(&String::from("x"));

    // They are the same index.
    assert_eq!(x1.0, x2.0);
    // Symbols reference *the exact same string*.
    assert_eq!(interner.lookup(x1).as_ptr(), interner.lookup(x2).as_ptr());
}

#[test]
fn intern_distinct_strings_are_distinct() {
    let mut interner = Interner::new();
    let x = interner.intern("x");
    let y = interner.intern("y");
    assert_ne!(x.0, y.0);
    assert_eq!(interner.lookup(x), "x");
    assert_eq!(interner.lookup(y), "y");
}

#[test]
fn intern_keeps_indices_stable() {
    let mut interner = Interner::new();
    let a = interner.intern("alpha");
    let b = interner.intern("beta");
    let a2 = interner.intern("alpha");
    let c = interner.intern("gamma");
    assert_eq!(a, a2);
    assert_eq!(interner.lookup(a), "alpha");
    assert_eq!(interner.lookup(b), "beta");
    assert_eq!(interner.lookup(c), "gamma");
    assert_eq!(a.0, 0);
    assert_eq!(b.0, 1);
    assert_eq!(c.0, 2);
}
