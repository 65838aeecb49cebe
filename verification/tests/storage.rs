use galyak::runtime::memory::storage::{GlkStack, StackHashMap, StackVariable, VarInfo};
use galyak::runtime::memory::types::Type;

fn s(x: &str) -> String {
    x.to_string()
}

fn var(offset: usize, vtype: Type) -> StackVariable {
    StackVariable { offset, vtype, initialized: false }
}

#[test]
fn hash_map_keeps_entries_sorted() {
    let mut m = StackHashMap::new();
    for (i, name) in ["а", "б", "в", "г", "ґ", "д"].iter().enumerate() {
        m.push(&s(name), var(i, Type::Number));
    }
    assert_eq!(m.vec.len(), 6);
    for w in m.vec.windows(2) {
        assert!(w[0].0 <= w[1].0);
    }
}

#[test]
fn hash_map_get_after_push() {
    let mut m = StackHashMap::new();
    assert_eq!(m.get(&s("а")), None);
    m.push(&s("а"), var(0, Type::Number));
    m.push(&s("б"), var(1, Type::String));
    m.push(&s("в"), var(2, Type::Bool));
    let i = m.get(&s("б")).unwrap();
    assert_eq!(m.vec[i].1.offset, 1);
    assert_eq!(m.vec[i].1.vtype, Type::String);
    let i = m.get(&s("а")).unwrap();
    assert_eq!(m.vec[i].1.offset, 0);
    assert_eq!(m.get(&s("г")), None);
}

fn reserve(vars: &[(Type, &str)]) -> Vec<VarInfo> {
    vars.iter().map(|(t, n)| VarInfo { vtype: *t, name: s(n) }).collect()
}

#[test]
fn declare_then_use() {
    let mut st: GlkStack<i32> = GlkStack::allocate(&reserve(&[(Type::Number, "а"), (Type::String, "б")]), None);
    assert_eq!(st.get_typed(&s("а"), &Type::Number, true), Err(s("штріх \"а\" не прописаний")));
    assert_eq!(st.get_typed(&s("а"), &Type::Number, false), Ok((0, 0)));
    assert_eq!(st.get_typed(&s("а"), &Type::Number, true), Ok((0, 0)));
    assert_eq!(st.get_typed(&s("а"), &Type::Number, false), Err(s("штріх з ім'ям а вже існує")));
    assert_eq!(
        st.get_typed(&s("б"), &Type::Number, false),
        Err(s("масть \"букви\" штріха \"б\" не підходить, очікувалось: \"цифри\""))
    );
    assert_eq!(st.get_dynamicaly(&s("б"), false), Ok(((0, 1), Type::String)));
    assert_eq!(st.get_dynamicaly(&s("б"), true), Ok(((0, 1), Type::String)));
    assert_eq!(st.get_dynamicaly(&s("в"), true), Err(s("штріх \"в\" не прописаний")));
    assert_eq!(st.find_var(&s("а")), Some((Type::Number, true)));
    assert_eq!(st.find_var(&s("в")), None);
}

#[test]
fn lookup_goes_to_the_outer_frame() {
    let mut outer: GlkStack<i32> = GlkStack::allocate(&reserve(&[(Type::Number, "а"), (Type::Func, "ф")]), None);
    assert_eq!(outer.get_typed(&s("а"), &Type::Number, false), Ok((0, 0)));
    outer.set_slot(0, 0, 42);
    let mut inner: GlkStack<i32> = GlkStack::allocate(&reserve(&[(Type::String, "б")]), Some(Box::new(outer)));
    assert_eq!(inner.get_typed(&s("а"), &Type::Number, true), Ok((1, 0)));
    assert_eq!(inner.slot(1, 0), &Some(42));
    assert_eq!(inner.slot(0, 0), &None);
    inner.set_slot(1, 0, 7);
    assert_eq!(inner.get_dynamicaly(&s("ф"), false), Ok(((1, 1), Type::Func)));
    assert_eq!(inner.find_var(&s("ф")), Some((Type::Func, true)));
    let outer = inner.nahuy().unwrap();
    assert_eq!(outer.slot(0, 0), &Some(7));
    assert_eq!(outer.find_var(&s("ф")), Some((Type::Func, true)));
}

#[test]
fn uninit_all_resets_the_frame() {
    let mut outer: GlkStack<()> = GlkStack::allocate(&reserve(&[(Type::Number, "а")]), None);
    outer.get_typed(&s("а"), &Type::Number, false).unwrap();
    let mut inner: GlkStack<()> = GlkStack::allocate(&reserve(&[(Type::Number, "б")]), Some(Box::new(outer)));
    inner.get_typed(&s("б"), &Type::Number, false).unwrap();
    inner.uninit_all();
    assert_eq!(inner.get_typed(&s("б"), &Type::Number, true), Err(s("штріх \"б\" не прописаний")));
    assert_eq!(inner.get_typed(&s("а"), &Type::Number, true), Ok((1, 0)));
    assert_eq!(inner.get_typed(&s("б"), &Type::Number, false), Ok((0, 0)));
}

#[test]
fn inner_frame_hides_the_outer_one() {
    let mut outer: GlkStack<()> = GlkStack::allocate(&reserve(&[(Type::Number, "а")]), None);
    outer.get_typed(&s("а"), &Type::Number, false).unwrap();
    let mut inner: GlkStack<()> = GlkStack::allocate(&reserve(&[(Type::String, "а")]), Some(Box::new(outer)));
    assert_eq!(inner.get_typed(&s("а"), &Type::String, true), Err(s("штріх \"а\" не прописаний")));
    assert_eq!(inner.get_typed(&s("а"), &Type::String, false), Ok((0, 0)));
}

#[test]
fn open_then_declare_each_reserved_variable() {
    let names = ["а", "б", "в", "г", "ґ", "д", "е", "є"];
    let types = [Type::Number, Type::String, Type::Func, Type::Bool];
    let vars: Vec<(Type, &str)> = names.iter().enumerate().map(|(i, n)| (types[i % 4], *n)).collect();
    let mut st: GlkStack<u8> = GlkStack::allocate(&reserve(&vars), None);
    for (k, (t, n)) in vars.iter().enumerate() {
        assert_eq!(st.get_dynamicaly(&s(n), true), Err(format!("штріх \"{}\" не прописаний", n)));
        assert_eq!(st.get_typed(&s(n), t, false), Ok((0, k)));
    }
}

#[test]
fn write_then_read() {
    let outer: GlkStack<i32> = GlkStack::allocate(&reserve(&[(Type::Number, "а"), (Type::Number, "б")]), None);
    let mut st: GlkStack<i32> = GlkStack::allocate(&reserve(&[(Type::Number, "в")]), Some(Box::new(outer)));
    st.set_slot(1, 1, 5);
    st.set_slot(0, 0, 6);
    st.set_slot(1, 0, 7);
    assert_eq!(st.slot(1, 1), &Some(5));
    assert_eq!(st.slot(0, 0), &Some(6));
    assert_eq!(st.slot(1, 0), &Some(7));
    st.set_slot(1, 1, 8);
    assert_eq!(st.slot(1, 1), &Some(8));
    assert_eq!(st.slot(1, 0), &Some(7));
}
