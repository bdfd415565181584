use std::any::TypeId;
use std::cell::RefCell;
use std::sync::Arc;

use simpledi_rs::di::DIContainer;
use simpledi_rs::di::DIContainerExtTrait;
use simpledi_rs::di::DIContainerTrait;
use simpledi_rs::di::DependencyInjectTrait;
use simpledi_rs::di::inject_dep;

#[derive(Debug)]
struct Config {
    v: u32,
}

#[derive(Debug)]
struct ServiceA;

#[derive(Debug)]
struct ServiceB;

#[derive(Debug)]
struct ServiceC;

// Two distinct types with identical in-memory representation.
#[derive(Debug)]
struct LeftTag {
    bits: u64,
}

#[derive(Debug)]
struct RightTag {
    bits: u64,
}

#[derive(Debug)]
struct Logger {
    handle: RefCell<Option<Arc<DIContainer>>>,
}

#[derive(Debug)]
struct OtherService {
    id: u32,
}

impl Logger {
    fn new() -> Self {
        Self { handle: RefCell::new(None) }
    }
}

impl DependencyInjectTrait for Logger {
    fn inject(&self, container: Arc<DIContainer>) {
        *self.handle.borrow_mut() = Some(container);
    }
}

#[test]
fn test_absent_before_insert() {
    let container = DIContainer::new();
    assert!(container.get::<Config>().is_none());
}

#[test]
fn test_replacement_last_write_wins() {
    let mut container = DIContainer::new();
    container.add(Config { v: 1 }).unwrap();
    container.add(Config { v: 2 }).unwrap();
    let arc = container.init().unwrap();
    assert_eq!(arc.get::<Config>().unwrap().v, 2);
}

#[test]
fn test_identity_isolation() {
    let mut container = DIContainer::new();
    container.add(LeftTag { bits: 5 }).unwrap();
    container.add(RightTag { bits: 9 }).unwrap();
    let arc = container.init().unwrap();
    assert_eq!(arc.get::<LeftTag>().unwrap().bits, 5);
    assert_eq!(arc.get::<RightTag>().unwrap().bits, 9);
}

#[test]
fn test_end_to_end_bootstrap() {
    let mut container = DIContainer::new();
    container.add(ServiceA).unwrap();
    container.add(ServiceB).unwrap();
    let arc = container.init().unwrap();
    assert!(arc.get::<ServiceA>().is_some());
    assert!(arc.get::<ServiceB>().is_some());
    assert!(arc.get::<ServiceC>().is_none());
}

#[test]
fn test_injected_handle_sees_peers() {
    let mut container = DIContainer::new();
    container.add(Logger::new()).unwrap();
    // registered after the logger; visible to it all the same once frozen
    container.add(OtherService { id: 42 }).unwrap();
    let arc = container.init().unwrap();
    assert!(inject_dep::<Logger>(&arc));

    let logger = arc.get::<Logger>().unwrap();
    let handle = logger.handle.borrow();
    let via_logger = handle.get::<OtherService>().unwrap();
    let direct = arc.get::<OtherService>().unwrap();
    assert_eq!(via_logger.id, 42);
    assert!(std::ptr::eq(direct, via_logger));
}

#[test]
fn test_get_mut_before_finalize() {
    let mut container = DIContainer::new();
    container.add(Config { v: 1 }).unwrap();
    container.get_mut::<Config>().unwrap().v = 5;
    assert!(container.get_mut::<ServiceA>().is_none());
    let arc = container.init().unwrap();
    assert_eq!(arc.get::<Config>().unwrap().v, 5);
}

#[test]
fn test_ext_trait_absent_handle() {
    let empty_handle: Option<Arc<DIContainer>> = None;
    assert!(empty_handle.get::<Config>().is_none());
}

#[test]
fn test_inject_dep_absent_type() {
    let container = DIContainer::new();
    let arc = container.init().unwrap();
    assert!(!inject_dep::<Logger>(&arc));
}

#[test]
fn test_slot_level_lookup() {
    let mut container = DIContainer::new();
    container.add(Config { v: 3 }).unwrap();
    assert!(container.get_slot(&TypeId::of::<Config>()).is_some());
    assert!(container.get_slot(&TypeId::of::<ServiceA>()).is_none());
}
