use std::cell::RefCell;
use std::rc::Rc;

use vpi_export::marker::{Input, InputOutput, Output};
use vpi_export::task::{indexed_name, systf_name};
use vpi_export::{VpiError, VpiFunctionCollection, VpiFunctionNode, VpiTaskResult};

#[test]
fn task_results() {
    assert!(().into_vpi_result().is_ok());
    let ok: Result<(), VpiError> = Ok(());
    assert!(ok.into_vpi_result().is_ok());
    let err: Result<(), VpiError> = Err(VpiError::PeriodTooSmall);
    assert!(matches!(err.into_vpi_result(), Err(VpiError::PeriodTooSmall)));
}

#[test]
fn system_task_names() {
    assert_eq!(systf_name("test2"), b"$test2\0".to_vec());
    assert_eq!(systf_name(""), b"$\0".to_vec());
}

#[test]
fn generated_names() {
    assert_eq!(indexed_name("arg", 0), "arg_0");
    assert_eq!(indexed_name("data", 12), "data_12");
    assert_eq!(indexed_name("handle", 1234567890), "handle_1234567890");
}

#[test]
fn functions_run_most_recent_first() {
    let log = Rc::new(RefCell::new(Vec::new()));
    let mut c = VpiFunctionCollection::new();
    for i in 0..3 {
        let l = log.clone();
        let f: Box<dyn Fn()> = Box::new(move || l.borrow_mut().push(i));
        c.push(VpiFunctionNode::new(f));
    }
    c.register_vpi_functions();
    assert_eq!(*log.borrow(), vec![2, 1, 0]);
}

#[test]
fn empty_collection_runs_nothing() {
    let c: VpiFunctionCollection<fn()> = VpiFunctionCollection::new();
    c.register_vpi_functions();
}

#[test]
fn output_starts_at_default_and_writes_through() {
    let mut data: i32 = Output::<i32>::initialize_data();
    assert_eq!(data, 0);
    {
        let mut o = Output::new(&mut data);
        assert_eq!(*o.value(), 0);
        *o.value_mut() = 55;
        assert_eq!(*o.value(), 55);
    }
    assert_eq!(data, 55);
}

#[test]
fn input_takes_the_value_and_keeps_it() {
    let mut data = Some(7u8);
    let mut i = Input::new(&mut data);
    assert_eq!(data, None);
    *i.value_mut() += 1;
    assert_eq!(*i.value(), 8);
    assert_eq!(i.into_inner(), 8);
}

#[test]
fn input_output_writes_through() {
    let mut data = String::from("a");
    {
        let mut io = InputOutput::new(&mut data);
        assert_eq!(io.value(), "a");
        io.value_mut().push('b');
        assert_eq!(io.value(), "ab");
    }
    assert_eq!(data, "ab");
}
