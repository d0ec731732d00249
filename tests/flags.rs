use dioxus_shareables::flag::{CombineFlag, Flag, StructFlag};
use dioxus_shareables::{Access, RW, W};

const ALL: [Access; 3] = [Access::Hidden, Access::Write, Access::ReadWrite];

#[test]
fn combine_table() {
    assert_eq!(Access::Hidden.combine(Access::Hidden), Access::Hidden);
    assert_eq!(Access::Hidden.combine(Access::Write), Access::Write);
    assert_eq!(Access::Write.combine(Access::Hidden), Access::Write);
    assert_eq!(Access::Write.combine(Access::Write), Access::Write);
    assert_eq!(Access::Write.combine(Access::ReadWrite), Access::ReadWrite);
    assert_eq!(Access::ReadWrite.combine(Access::Hidden), Access::ReadWrite);
}

#[test]
fn combine_is_commutative_associative_idempotent() {
    for a in ALL {
        assert_eq!(a.combine(a), a);
        for b in ALL {
            assert_eq!(a.combine(b), b.combine(a));
            for c in ALL {
                assert_eq!(a.combine(b).combine(c), a.combine(b.combine(c)));
            }
        }
    }
}

#[test]
fn implies_order() {
    assert!(Access::ReadWrite.implies(Access::Write));
    assert!(Access::Write.implies(Access::Hidden));
    for x in ALL {
        assert!(x.implies(x));
        assert!(x.implies(Access::Hidden));
    }
    assert!(!Access::Hidden.implies(Access::Write));
    assert!(!Access::Write.implies(Access::ReadWrite));
    assert!(!Access::Hidden.implies(Access::ReadWrite));
}

#[test]
fn reads_only_for_read_write() {
    assert!(Access::ReadWrite.reads());
    assert!(!Access::Write.reads());
    assert!(!Access::Hidden.reads());
}

#[test]
fn type_level_flags_match_values() {
    assert_eq!(<() as StructFlag>::flag(), Access::Hidden);
    assert_eq!(W::flag(), Access::Write);
    assert_eq!(RW::flag(), Access::ReadWrite);
    assert!(RW::read());
    assert!(!W::read());
    assert_eq!(<<W as CombineFlag<RW>>::Combined as StructFlag>::flag(), Access::ReadWrite);
    assert_eq!(<<() as CombineFlag<W>>::Combined as StructFlag>::flag(), Access::Write);
    assert_eq!(<<W as CombineFlag<()>>::Combined as StructFlag>::flag(), Access::Write);
}
