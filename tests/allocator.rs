use cubecl::allocator::Allocator;
use cubecl::ir::{
    Elem, ExpandElement, FloatKind, FragmentLayout, IntKind, Item, Matrix, MatrixIdent, Variable,
    VariableKind,
};

fn f32_item() -> Item {
    Item::new(Elem::Float(FloatKind::F32))
}

fn managed_id(e: ExpandElement) -> u32 {
    match e {
        ExpandElement::Managed(v) => v.id(),
        ExpandElement::Plain(_) => panic!("expected a pooled binding"),
    }
}

#[test]
fn ids_are_unique_across_kinds() {
    let mut a = Allocator::new();
    let c = a.create_local(f32_item());
    let r = a.create_local_restricted(f32_item());
    let arr = a.create_local_array(f32_item(), 8);
    let s = a.create_slice(f32_item());
    assert_eq!(c.variable().id(), 0);
    assert_eq!(r.variable().id(), 1);
    assert_eq!(arr.variable().id(), 2);
    assert_eq!(s.variable().id(), 3);
    assert_eq!(
        arr,
        ExpandElement::Plain(Variable::new(VariableKind::LocalArray { id: 2, length: 8 }, f32_item()))
    );
    assert_eq!(a.next_id(), 4);
    assert_eq!(a.pool_len(), 0);
}

#[test]
fn matrix_item_is_scalar_element() {
    let mut a = Allocator::new();
    let mat = Matrix {
        ident: MatrixIdent::Accumulator,
        m: 16,
        n: 16,
        k: 16,
        elem: Elem::Float(FloatKind::F16),
        layout: FragmentLayout::RowMajor,
    };
    let e = a.create_matrix(mat);
    assert_eq!(
        e,
        ExpandElement::Plain(Variable::new(
            VariableKind::Matrix { id: 0, mat },
            Item::new(Elem::Float(FloatKind::F16))
        ))
    );
}

#[test]
fn released_mutable_local_is_reused() {
    let mut a = Allocator::new();
    let x = managed_id(a.create_local_mut(f32_item()));
    a.release(x);
    let y = managed_id(a.create_local_mut(f32_item()));
    assert_eq!(x, y);
    assert_eq!(a.pool_len(), 1);
}

#[test]
fn live_mutable_locals_get_distinct_ids() {
    let mut a = Allocator::new();
    let x = managed_id(a.create_local_mut(f32_item()));
    let y = managed_id(a.create_local_mut(f32_item()));
    assert_ne!(x, y);
    assert_eq!(a.pool_len(), 2);
}

#[test]
fn pool_size_is_high_water_mark() {
    // At most two live at once, over six requests.
    let mut a = Allocator::new();
    let mut ids = Vec::new();
    for _ in 0..3 {
        let x = managed_id(a.create_local_mut(f32_item()));
        let y = managed_id(a.create_local_mut(f32_item()));
        ids.push(x);
        ids.push(y);
        a.release(x);
        a.release(y);
    }
    ids.sort();
    ids.dedup();
    assert_eq!(ids.len(), 2);
    assert_eq!(a.pool_len(), 2);
}

#[test]
fn reuse_takes_last_free_location() {
    let mut a = Allocator::new();
    let x = managed_id(a.create_local_mut(f32_item()));
    let y = managed_id(a.create_local_mut(f32_item()));
    a.release(x);
    a.release(y);
    assert_eq!(managed_id(a.create_local_mut(f32_item())), y);
    assert_eq!(managed_id(a.create_local_mut(f32_item())), x);
}

#[test]
fn pool_is_keyed_by_item() {
    let mut a = Allocator::new();
    let x = managed_id(a.create_local_mut(f32_item()));
    a.release(x);
    let wide = Item::vectorized(Elem::Float(FloatKind::F32), 4);
    let y = managed_id(a.create_local_mut(wide));
    assert_ne!(x, y);
    assert_eq!(a.pool_len(), 2);
}

#[test]
fn atomic_item_bypasses_pool() {
    let mut a = Allocator::new();
    let item = Item::new(Elem::AtomicInt(IntKind::I32));
    let e = a.create_local_mut(item);
    assert_eq!(
        e,
        ExpandElement::Plain(Variable::new(VariableKind::LocalMut { id: 0 }, item))
    );
    a.release(0);
    let f = a.create_local_mut(item);
    assert_eq!(f.variable().id(), 1);
    assert_eq!(a.pool_len(), 0);
}

#[test]
fn add_local_mut_registers_in_use() {
    let mut a = Allocator::new();
    let v = a.add_local_mut(f32_item());
    assert_eq!(v, Variable::new(VariableKind::LocalMut { id: 0 }, f32_item()));
    let w = managed_id(a.create_local_mut(f32_item()));
    assert_eq!(w, 1);
    assert_eq!(a.new_local_index(), 2);
}
