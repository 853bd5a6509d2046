use async_actor::binding::Binding;
use async_actor::error::ActorError;
use async_actor::injector::{InjectorInner, Resolution};

const STORE: u64 = 10;
const MEM: u64 = 11;
const DISK: u64 = 12;

fn construct_key(r: Result<Resolution, ActorError>) -> Binding {
    match r {
        Ok(Resolution::Construct(b)) => b,
        _ => panic!("expected a key to build"),
    }
}

fn cached_key(r: Result<Resolution, ActorError>) -> Binding {
    match r {
        Ok(Resolution::Cached(b)) => b,
        _ => panic!("expected a stored cell"),
    }
}

#[test]
fn fresh_key_is_constructed_under_its_own_type() {
    let inj: InjectorInner<u32> = InjectorInner::new();
    let k = construct_key(inj.lookup(&Binding::Unnamed(5), 0));
    assert!(matches!(k, Binding::Unnamed(5)));
    assert!(inj.instance(&k).is_none());
}

#[test]
fn binding_redirects_before_first_resolution() {
    let mut inj: InjectorInner<u32> = InjectorInner::new();
    inj.bind(STORE, MEM);
    let k = construct_key(inj.lookup(&Binding::Unnamed(STORE), 0));
    assert!(matches!(k, Binding::Unnamed(MEM)));
    inj.bind(STORE, DISK);
    let k = construct_key(inj.lookup(&Binding::Unnamed(STORE), 0));
    assert!(matches!(k, Binding::Unnamed(DISK)));
}

#[test]
fn binding_chain_reaches_the_same_instance() {
    let mut inj: InjectorInner<u32> = InjectorInner::new();
    inj.bind(1, 2);
    inj.bind(2, 3);
    let c = inj.new_chain().unwrap();
    let k = construct_key(inj.lookup(&Binding::Unnamed(1), c));
    assert!(matches!(k, Binding::Unnamed(3)));
    inj.begin_construction(k.clone(), "C".to_string(), c, 77);
    inj.finish_construction(&k);
    let via_a = cached_key(inj.lookup(&Binding::Unnamed(1), c));
    let via_c = cached_key(inj.lookup(&Binding::Unnamed(3), c));
    assert!(via_a.same(&via_c));
    assert_eq!(inj.instance(&via_a), Some(&77));
    assert_eq!(inj.instance(&via_c), Some(&77));
}

#[test]
fn redirection_keeps_the_name() {
    let mut inj: InjectorInner<u32> = InjectorInner::new();
    inj.bind(STORE, MEM);
    let k = construct_key(inj.lookup(&Binding::Named(STORE, "primary".to_string()), 0));
    match k {
        Binding::Named(t, n) => {
            assert_eq!(t, MEM);
            assert_eq!(n, "primary");
        }
        _ => panic!("the name was lost"),
    }
}

#[test]
fn named_and_unnamed_bindings_are_distinct() {
    let mut inj: InjectorInner<u32> = InjectorInner::new();
    inj.bind_value(4, 1);
    let named = Binding::Named(4, "x".to_string());
    let k = construct_key(inj.lookup(&named, 0));
    assert!(k.same(&named));
    assert!(!k.same(&Binding::Unnamed(4)));
    assert!(!Binding::Named(4, "x".to_string()).same(&Binding::Named(4, "y".to_string())));
}

#[test]
fn cycle_is_reported_with_every_type_of_the_chain() {
    let mut inj: InjectorInner<u32> = InjectorInner::new();
    let c = inj.new_chain().unwrap();
    let x = construct_key(inj.lookup(&Binding::Unnamed(100), c));
    inj.begin_construction(x.clone(), "X".to_string(), c, 1);
    let y = construct_key(inj.lookup(&Binding::Unnamed(200), c));
    inj.begin_construction(y.clone(), "Y".to_string(), c, 2);
    match inj.lookup(&Binding::Unnamed(100), c) {
        Err(ActorError::CircularDependency(names)) => {
            assert_eq!(names, vec!["X".to_string(), "Y".to_string()]);
        }
        _ => panic!("the cycle went unnoticed"),
    }
    inj.abandon_construction(&y);
    inj.abandon_construction(&x);
    assert!(inj.instance(&x).is_none());
    assert!(inj.instance(&y).is_none());
    let again = construct_key(inj.lookup(&Binding::Unnamed(100), c));
    assert!(again.same(&x));
}

#[test]
fn other_chain_waits_on_the_cell_being_built() {
    let mut inj: InjectorInner<u32> = InjectorInner::new();
    let first = inj.new_chain().unwrap();
    let second = inj.new_chain().unwrap();
    assert_ne!(first, second);
    let k = construct_key(inj.lookup(&Binding::Unnamed(9), first));
    inj.begin_construction(k.clone(), "A".to_string(), first, 5);
    let seen = cached_key(inj.lookup(&Binding::Unnamed(9), second));
    assert!(seen.same(&k));
    assert_eq!(inj.instance(&seen), Some(&5));
}

#[test]
fn get_twice_finds_the_same_cell() {
    let mut inj: InjectorInner<u32> = InjectorInner::new();
    let c = inj.new_chain().unwrap();
    let k = construct_key(inj.lookup(&Binding::Unnamed(8), c));
    inj.begin_construction(k.clone(), "T".to_string(), c, 42);
    inj.finish_construction(&k);
    let a = cached_key(inj.lookup(&Binding::Unnamed(8), c));
    let next = inj.new_chain().unwrap();
    let b = cached_key(inj.lookup(&Binding::Unnamed(8), next));
    assert!(a.same(&b));
    assert_eq!(inj.instance(&a), Some(&42));
    assert_eq!(inj.instance(&b), Some(&42));
}

#[test]
fn bound_value_is_found() {
    let mut inj: InjectorInner<u32> = InjectorInner::new();
    inj.bind_value(3, 99);
    let k = cached_key(inj.lookup(&Binding::Unnamed(3), 0));
    assert!(matches!(k, Binding::Unnamed(3)));
    assert_eq!(inj.instance(&k), Some(&99));
}

#[test]
fn binding_loop_is_an_error() {
    let mut inj: InjectorInner<u32> = InjectorInner::new();
    inj.bind(1, 2);
    inj.bind(2, 1);
    assert!(matches!(
        inj.lookup(&Binding::Unnamed(1), 0),
        Err(ActorError::CircularBinding(1))
    ));
    inj.bind(3, 3);
    assert!(matches!(
        inj.target_of(&Binding::Unnamed(3)),
        Err(ActorError::CircularBinding(3))
    ));
}

#[test]
fn finished_cell_stays_and_abandoned_cell_goes() {
    let mut inj: InjectorInner<u32> = InjectorInner::new();
    let c = inj.new_chain().unwrap();
    let a = Binding::Unnamed(1);
    let b = Binding::Unnamed(2);
    inj.begin_construction(a.clone(), "A".to_string(), c, 10);
    inj.begin_construction(b.clone(), "B".to_string(), c, 20);
    inj.finish_construction(&a);
    inj.abandon_construction(&b);
    assert_eq!(inj.instance(&a), Some(&10));
    assert!(inj.instance(&b).is_none());
    assert!(matches!(inj.lookup(&a, c), Ok(Resolution::Cached(_))));
}

#[test]
fn chain_ids_count_up() {
    let mut inj: InjectorInner<u32> = InjectorInner::new();
    assert_eq!(inj.new_chain(), Some(0));
    assert_eq!(inj.new_chain(), Some(1));
    assert_eq!(inj.new_chain(), Some(2));
}

#[test]
fn binding_accessors() {
    let b = Binding::Named(6, "n".to_string());
    assert_eq!(b.type_key(), 6);
    let r = b.redirected(7);
    assert!(r.same(&Binding::Named(7, "n".to_string())));
    assert!(Binding::Unnamed(1).redirected(2).same(&Binding::Unnamed(2)));
}

#[test]
fn ending_a_construction_by_its_outcome() {
    let mut inj: InjectorInner<u32> = InjectorInner::new();
    let c = inj.new_chain().unwrap();
    let built = Binding::Unnamed(1);
    let cyclic = Binding::Unnamed(2);
    let panicked = Binding::Unnamed(3);
    inj.begin_construction(built.clone(), "A".to_string(), c, 1);
    inj.begin_construction(cyclic.clone(), "B".to_string(), c, 2);
    inj.begin_construction(panicked.clone(), "C".to_string(), c, 3);
    inj.end_construction(&built, &Ok::<u8, ActorError>(0));
    inj.end_construction(&cyclic, &Err::<u8, ActorError>(ActorError::CircularDependency(vec![])));
    inj.end_construction(&panicked, &Err::<u8, ActorError>(ActorError::HandlerPanicked("C".to_string())));
    assert_eq!(inj.instance(&built), Some(&1));
    assert!(inj.instance(&cyclic).is_none());
    assert_eq!(inj.instance(&panicked), Some(&3));
    assert!(matches!(inj.lookup(&built, c), Ok(Resolution::Cached(_))));
    assert!(matches!(inj.lookup(&cyclic, c), Ok(Resolution::Construct(_))));
}

#[test]
fn bound_value_leaves_a_construction_under_way_in_place() {
    let mut inj: InjectorInner<u32> = InjectorInner::new();
    let c = inj.new_chain().unwrap();
    let k = construct_key(inj.lookup(&Binding::Unnamed(4), c));
    inj.begin_construction(k.clone(), "T".to_string(), c, 1);
    inj.bind_value(4, 2);
    assert!(matches!(
        inj.lookup(&Binding::Unnamed(4), c),
        Err(ActorError::CircularDependency(_))
    ));
    let other = inj.new_chain().unwrap();
    let found = cached_key(inj.lookup(&Binding::Unnamed(4), other));
    assert!(found.same(&k));
    assert_eq!(inj.instance(&found), Some(&2));
}

#[test]
fn resolve_or_begin_records_only_what_it_builds() {
    let mut inj: InjectorInner<u32> = InjectorInner::new();
    inj.bind(1, 2);
    let c = inj.new_chain().unwrap();
    let k = construct_key(inj.resolve_or_begin(&Binding::Unnamed(1), "B".to_string(), c, 7));
    assert!(matches!(k, Binding::Unnamed(2)));
    assert_eq!(inj.instance(&k), Some(&7));
    match inj.resolve_or_begin(&Binding::Unnamed(2), "B".to_string(), c, 8) {
        Err(ActorError::CircularDependency(names)) => assert_eq!(names, vec!["B".to_string()]),
        _ => panic!("the cycle went unnoticed"),
    }
    let other = inj.new_chain().unwrap();
    let seen = cached_key(inj.resolve_or_begin(&Binding::Unnamed(1), "B".to_string(), other, 9));
    assert!(seen.same(&k));
    assert_eq!(inj.instance(&k), Some(&7));
}

#[test]
fn cached_key_is_found_again_from_another_chain() {
    let mut inj: InjectorInner<u32> = InjectorInner::new();
    inj.bind_value(6, 60);
    let first = inj.new_chain().unwrap();
    let second = inj.new_chain().unwrap();
    let a = cached_key(inj.lookup(&Binding::Unnamed(6), first));
    let b = cached_key(inj.lookup(&Binding::Unnamed(6), second));
    assert!(a.same(&b));
    assert_eq!(inj.instance(&a), inj.instance(&b));
}
