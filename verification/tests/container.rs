use std::cell::RefCell;
use std::sync::Arc;

use simpledi_rs::di::DIContainer;
use simpledi_rs::di::DIContainerTrait;
use simpledi_rs::di::DependencyInjectTrait;
use simpledi_rs::di::inject_dep;

#[derive(Debug)]
struct DIStruct {
    value: u64,
}

#[derive(Debug)]
struct DIAwareStruct(RefCell<Option<Arc<DIContainer>>>);

impl DIStruct {
    fn new() -> Self {
        Self { value: 0 }
    }
}

impl DIAwareStruct {
    fn new() -> Self {
        Self(RefCell::new(None))
    }
}

impl DependencyInjectTrait for DIAwareStruct {
    fn inject(&self, container: Arc<DIContainer>) {
        *self.0.borrow_mut() = Some(container.clone())
    }
}

#[test]
fn test_create_dep() {
    let mut container = DIContainer::new();

    // add obj to DI and keep configuring it through the returned view
    {
        let obj = container.add(DIStruct::new()).unwrap();
        obj.value = 7;
    }

    // get obj from DI: the stored instance is the one configured above
    let container_arc = container.init().unwrap();
    let injected_obj = container_arc.get::<DIStruct>().unwrap();

    assert_eq!(injected_obj.value, 7);
}

#[test]
fn test_inject_dep() {
    let mut container = DIContainer::new();

    // add obj to DI
    container.add(DIAwareStruct::new()).unwrap();

    // inject DI container to aware objects
    let container_arc = container.init().unwrap();
    inject_dep::<DIAwareStruct>(&container_arc);

    // get container from aware objects
    let injected_obj = container_arc.get::<DIAwareStruct>().unwrap();
    let stored = injected_obj.0.borrow();
    let injected_container = stored.as_ref().unwrap();

    assert!(Arc::ptr_eq(&container_arc, injected_container));
}
