use bodge::sortable::Sortable;
use bodge::sortable::Sortable2D;
use bodge::sortable::Sortable2DWith;
use bodge::sortable::Sortable3D;
use bodge::sortable::Sortable3DWith;
use bodge::sortable::SortableWith;
use core::cmp::Ordering;

#[test]
fn sortable() {
    assert!(Sortable(0i64) == Sortable(0i64));
    assert!(Sortable(0i64) != Sortable(1i64));

    let a = Sortable(0i64);
    let b = Sortable(0i64);
    assert!(a.eq(&b));

    let a = Sortable(1i64);
    let b = Sortable(0i64);
    assert!(a.cmp(&b) == Ordering::Greater);

    let a = Sortable(0i64);
    let b = Sortable(1i64);
    assert!(a.cmp(&b) == Ordering::Less);
}

#[test]
fn sortable_with() {
    assert!(SortableWith(0i64, ()) == SortableWith(0i64, ()));
    assert!(SortableWith(0i64, ()) != SortableWith(1i64, ()));

    let a = SortableWith(0i64, 123);
    let b = SortableWith(0i64, 321);
    assert!(a.eq(&b));
    assert!(*a.data() == 123);
    assert!(*b.data() == 321);

    let a = SortableWith(1i64, ());
    let b = SortableWith(0i64, ());
    assert!(a.cmp(&b) == Ordering::Greater);

    let a = SortableWith(0i64, ());
    let b = SortableWith(1i64, ());
    assert!(a.cmp(&b) == Ordering::Less);
}

#[test]
fn sortable2d() {
    assert!(Sortable2D(0i64, 1i64) == Sortable2D(0i64, 1i64));
    assert!(Sortable2D(0i64, 1i64) != Sortable2D(1i64, 1i64));
    assert!(Sortable2D(0i64, 1i64) != Sortable2D(0i64, 2i64));

    let a = Sortable2D(0i64, 0i64);
    let b = Sortable2D(0i64, 0i64);
    assert!(a.eq(&b));

    let a = Sortable2D(1i64, 0i64);
    let b = Sortable2D(0i64, 0i64);
    assert!(a.cmp(&b) == Ordering::Greater);

    let a = Sortable2D(0i64, 0i64);
    let b = Sortable2D(1i64, 0i64);
    assert!(a.cmp(&b) == Ordering::Less);

    let a = Sortable2D(0i64, 1i64);
    let b = Sortable2D(0i64, 0i64);
    assert!(a.cmp(&b) == Ordering::Greater);

    let a = Sortable2D(0i64, 0i64);
    let b = Sortable2D(0i64, 1i64);
    assert!(a.cmp(&b) == Ordering::Less);
}

#[test]
fn sortable2d_with() {
    assert!(Sortable2DWith(0i64, 1i64, ()) == Sortable2DWith(0i64, 1i64, ()));
    assert!(Sortable2DWith(0i64, 1i64, ()) != Sortable2DWith(1i64, 1i64, ()));
    assert!(Sortable2DWith(0i64, 1i64, ()) != Sortable2DWith(0i64, 2i64, ()));

    let a = Sortable2DWith(0i64, 0i64, 123);
    let b = Sortable2DWith(0i64, 0i64, 321);
    assert!(a.eq(&b));
    assert!(*a.data() == 123);
    assert!(*b.data() == 321);

    let a = Sortable2DWith(1i64, 0i64, ());
    let b = Sortable2DWith(0i64, 0i64, ());
    assert!(a.cmp(&b) == Ordering::Greater);

    let a = Sortable2DWith(0i64, 0i64, ());
    let b = Sortable2DWith(1i64, 0i64, ());
    assert!(a.cmp(&b) == Ordering::Less);

    let a = Sortable2DWith(0i64, 1i64, ());
    let b = Sortable2DWith(0i64, 0i64, ());
    assert!(a.cmp(&b) == Ordering::Greater);

    let a = Sortable2DWith(0i64, 0i64, ());
    let b = Sortable2DWith(0i64, 1i64, ());
    assert!(a.cmp(&b) == Ordering::Less);
}

#[test]
fn sortable3d() {
    assert!(Sortable3D(0i64, 1i64, 2i64) == Sortable3D(0i64, 1i64, 2i64));
    assert!(Sortable3D(0i64, 1i64, 2i64) != Sortable3D(1i64, 1i64, 2i64));
    assert!(Sortable3D(0i64, 1i64, 2i64) != Sortable3D(0i64, 2i64, 2i64));
    assert!(Sortable3D(0i64, 1i64, 2i64) != Sortable3D(0i64, 1i64, 3i64));

    let a = Sortable3D(0i64, 0i64, 0i64);
    let b = Sortable3D(0i64, 0i64, 0i64);
    assert!(a.eq(&b));

    let a = Sortable3D(1i64, 0i64, 0i64);
    let b = Sortable3D(0i64, 0i64, 0i64);
    assert!(a.cmp(&b) == Ordering::Greater);

    let a = Sortable3D(0i64, 0i64, 0i64);
    let b = Sortable3D(1i64, 0i64, 0i64);
    assert!(a.cmp(&b) == Ordering::Less);

    let a = Sortable3D(0i64, 1i64, 0i64);
    let b = Sortable3D(0i64, 0i64, 0i64);
    assert!(a.cmp(&b) == Ordering::Greater);

    let a = Sortable3D(0i64, 0i64, 0i64);
    let b = Sortable3D(0i64, 1i64, 0i64);
    assert!(a.cmp(&b) == Ordering::Less);

    let a = Sortable3D(0i64, 0i64, 1i64);
    let b = Sortable3D(0i64, 0i64, 0i64);
    assert!(a.cmp(&b) == Ordering::Greater);

    let a = Sortable3D(0i64, 0i64, 0i64);
    let b = Sortable3D(0i64, 0i64, 1i64);
    assert!(a.cmp(&b) == Ordering::Less);
}

#[test]
fn sortable3d_with() {
    assert!(Sortable3DWith(0i64, 1i64, 2i64, ()) == Sortable3DWith(0i64, 1i64, 2i64, ()));
    assert!(Sortable3DWith(0i64, 1i64, 2i64, ()) != Sortable3DWith(1i64, 1i64, 2i64, ()));
    assert!(Sortable3DWith(0i64, 1i64, 2i64, ()) != Sortable3DWith(0i64, 2i64, 2i64, ()));
    assert!(Sortable3DWith(0i64, 1i64, 2i64, ()) != Sortable3DWith(0i64, 1i64, 3i64, ()));

    let a = Sortable3DWith(0i64, 0i64, 0i64, 123);
    let b = Sortable3DWith(0i64, 0i64, 0i64, 321);
    assert!(a.eq(&b));
    assert!(*a.data() == 123);
    assert!(*b.data() == 321);

    let a = Sortable3DWith(1i64, 0i64, 0i64, ());
    let b = Sortable3DWith(0i64, 0i64, 0i64, ());
    assert!(a.cmp(&b) == Ordering::Greater);

    let a = Sortable3DWith(0i64, 0i64, 0i64, ());
    let b = Sortable3DWith(1i64, 0i64, 0i64, ());
    assert!(a.cmp(&b) == Ordering::Less);

    let a = Sortable3DWith(0i64, 1i64, 0i64, ());
    let b = Sortable3DWith(0i64, 0i64, 0i64, ());
    assert!(a.cmp(&b) == Ordering::Greater);

    let a = Sortable3DWith(0i64, 0i64, 0i64, ());
    let b = Sortable3DWith(0i64, 1i64, 0i64, ());
    assert!(a.cmp(&b) == Ordering::Less);

    let a = Sortable3DWith(0i64, 0i64, 1i64, ());
    let b = Sortable3DWith(0i64, 0i64, 0i64, ());
    assert!(a.cmp(&b) == Ordering::Greater);

    let a = Sortable3DWith(0i64, 0i64, 0i64, ());
    let b = Sortable3DWith(0i64, 0i64, 1i64, ());
    assert!(a.cmp(&b) == Ordering::Less);
}
