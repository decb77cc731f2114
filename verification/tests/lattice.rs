use shader_analysis::analyzer::{
    ExitFlags, GlobalUse, SamplingKey, SamplingSet, Uniformity, UniformityDisruptor,
};
use shader_analysis::arena::{Arena, Handle};
use shader_analysis::ir::{Expression, GlobalVariable, StorageAccess};

fn expr(index: usize) -> Handle<Expression> {
    Handle::new(index)
}

fn global(index: usize) -> Handle<GlobalVariable> {
    Handle::new(index)
}

#[test]
fn uniformity_default_is_identity_of_join() {
    let none = Uniformity::default();
    assert_eq!(none.non_uniform_result, None);
    assert_eq!(none.require_uniform, None);
    let a = Uniformity::non_uniform_result(expr(3));
    assert_eq!(a | none, a);
    assert_eq!(none | a, a);
}

#[test]
fn uniformity_constructors_set_one_field() {
    let a = Uniformity::non_uniform_result(expr(4));
    assert_eq!(a.non_uniform_result, Some(expr(4)));
    assert_eq!(a.require_uniform, None);
    let b = Uniformity::require_uniform(expr(9));
    assert_eq!(b.non_uniform_result, None);
    assert_eq!(b.require_uniform, Some(expr(9)));
}

#[test]
fn uniformity_join_keeps_left_witness() {
    let left = Uniformity {
        non_uniform_result: Some(expr(1)),
        require_uniform: None,
    };
    let right = Uniformity {
        non_uniform_result: Some(expr(2)),
        require_uniform: Some(expr(7)),
    };
    let joined = left | right;
    assert_eq!(joined.non_uniform_result, Some(expr(1)));
    assert_eq!(joined.require_uniform, Some(expr(7)));
    let reversed = right | left;
    assert_eq!(reversed.non_uniform_result, Some(expr(2)));
    assert_eq!(reversed.require_uniform, Some(expr(7)));
}

#[test]
fn uniformity_join_is_associative_and_idempotent() {
    let a = Uniformity::non_uniform_result(expr(1));
    let b = Uniformity::require_uniform(expr(2));
    let c = Uniformity {
        non_uniform_result: Some(expr(3)),
        require_uniform: Some(expr(4)),
    };
    assert_eq!((a | b) | c, a | (b | c));
    assert_eq!(c | c, c);
}

#[test]
fn uniformity_disruptor_is_the_non_uniform_witness() {
    assert_eq!(Uniformity::default().disruptor(), None);
    assert_eq!(Uniformity::require_uniform(expr(5)).disruptor(), None);
    assert_eq!(
        Uniformity::non_uniform_result(expr(5)).disruptor(),
        Some(UniformityDisruptor::Expression(expr(5)))
    );
}

#[test]
fn disruptor_from_exit_prefers_return() {
    assert_eq!(UniformityDisruptor::from_exit(ExitFlags::empty()), None);
    assert_eq!(
        UniformityDisruptor::from_exit(ExitFlags::may_kill()),
        Some(UniformityDisruptor::Kill)
    );
    assert_eq!(
        UniformityDisruptor::from_exit(ExitFlags::may_return()),
        Some(UniformityDisruptor::Return)
    );
    assert_eq!(
        UniformityDisruptor::from_exit(ExitFlags::may_return() | ExitFlags::may_kill()),
        Some(UniformityDisruptor::Return)
    );
}

#[test]
fn exit_flags_union_and_contains() {
    let both = ExitFlags::may_return() | ExitFlags::may_kill();
    assert!(both.contains(ExitFlags::may_return()));
    assert!(both.contains(ExitFlags::may_kill()));
    assert!(both.contains(ExitFlags::empty()));
    assert!(!ExitFlags::may_kill().contains(ExitFlags::may_return()));
    assert!(!ExitFlags::empty().contains(ExitFlags::may_kill()));
    assert_eq!(ExitFlags::empty() | ExitFlags::empty(), ExitFlags::empty());
}

#[test]
fn global_use_bits() {
    assert_eq!(GlobalUse::empty().bits(), 0);
    assert_eq!(GlobalUse::read().bits(), 1);
    assert_eq!(GlobalUse::write().bits(), 2);
    assert_eq!(GlobalUse::query().bits(), 4);
    assert_eq!((GlobalUse::read() | GlobalUse::query()).bits(), 5);
    assert_eq!(
        (GlobalUse::read() | GlobalUse::write() | GlobalUse::query()).bits(),
        7
    );
}

#[test]
fn global_use_union_and_contains() {
    let read_write = GlobalUse::read() | GlobalUse::write();
    assert!(read_write.contains(GlobalUse::read()));
    assert!(read_write.contains(GlobalUse::write()));
    assert!(!read_write.contains(GlobalUse::query()));
    assert!(read_write.contains(GlobalUse::empty()));
    assert!(!GlobalUse::empty().contains(GlobalUse::read()));
    assert!(GlobalUse::empty().is_empty());
    assert!(!read_write.is_empty());
    assert_eq!(read_write | GlobalUse::read(), read_write);
}

#[test]
fn storage_access_flags() {
    let both = StorageAccess::load() | StorageAccess::store();
    assert!(both.contains(StorageAccess::store()));
    assert!(both.contains(StorageAccess::load()));
    assert!(!StorageAccess::load().contains(StorageAccess::store()));
    assert!(!StorageAccess::empty().contains(StorageAccess::load()));
    assert!(StorageAccess::empty().contains(StorageAccess::empty()));
}

#[test]
fn sampling_set_keeps_each_pair_once() {
    let mut set = SamplingSet::new();
    assert!(set.is_empty());
    assert_eq!(set.len(), 0);
    let first = SamplingKey {
        image: global(0),
        sampler: global(1),
    };
    let second = SamplingKey {
        image: global(1),
        sampler: global(0),
    };
    assert!(set.insert(first));
    assert!(!set.insert(first));
    assert!(set.insert(second));
    assert_eq!(set.len(), 2);
    assert!(set.contains(&first));
    assert!(set.contains(&second));
    assert!(!set.contains(&SamplingKey {
        image: global(0),
        sampler: global(0),
    }));
    assert_eq!(set.to_vec(), vec![first, second]);
}

#[test]
fn sampling_set_extend_is_union() {
    let a = SamplingKey {
        image: global(0),
        sampler: global(1),
    };
    let b = SamplingKey {
        image: global(2),
        sampler: global(3),
    };
    let c = SamplingKey {
        image: global(4),
        sampler: global(5),
    };
    let mut left = SamplingSet::new();
    left.insert(a);
    left.insert(b);
    let mut right = SamplingSet::new();
    right.insert(b);
    right.insert(c);
    left.extend(&right);
    assert_eq!(left.len(), 3);
    assert!(left.contains(&a));
    assert!(left.contains(&b));
    assert!(left.contains(&c));
    assert_eq!(right.len(), 2);
}

#[test]
fn arena_hands_out_consecutive_handles() {
    let mut arena: Arena<u32> = Arena::new();
    assert!(arena.is_empty());
    assert_eq!(arena.len(), 0);
    let first = arena.append(10);
    let second = arena.append(20);
    assert_eq!(first.index(), 0);
    assert_eq!(second.index(), 1);
    assert_eq!(first, Handle::new(0));
    assert_eq!(arena.len(), 2);
    assert!(!arena.is_empty());
    assert_eq!(arena[first], 10);
    assert_eq!(arena[second], 20);
    assert_eq!(arena.try_get(second), Some(&20));
    assert_eq!(arena.try_get(Handle::new(2)), None);
}
