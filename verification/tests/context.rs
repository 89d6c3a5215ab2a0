use valo_semantics::context::Context;
use valo_semantics::type_model::TypeName;

#[test]
fn a_reborrowed_function_context_writes_through_to_the_same_flags() {
    let mut saw_return = false;
    let mut saw_yield = false;
    let mut context = Context::MethodFunction {
        class_name: "Counter".to_string(),
        return_type: TypeName::Int32,
        return_slot: Some("Next".to_string()),
        is_iterator: false,
        is_async: true,
        saw_return: &mut saw_return,
        saw_yield: &mut saw_yield,
    };
    {
        let mut nested = context.reborrow();
        assert_eq!(nested.current_class(), Some("Counter"));
        assert!(nested.allows_await());
        match &mut nested {
            Context::MethodFunction { return_type, return_slot, is_iterator, saw_return, saw_yield, .. } => {
                assert!(matches!(return_type, TypeName::Int32));
                assert_eq!(return_slot.as_deref(), Some("Next"));
                assert!(!*is_iterator);
                assert!(!**saw_return);
                assert!(!**saw_yield);
                **saw_return = true;
            }
            _ => panic!("the reborrow keeps the kind of body"),
        }
    }
    assert_eq!(context.current_class(), Some("Counter"));
    drop(context);
    assert!(saw_return);
    assert!(!saw_yield);
}

#[test]
fn a_reborrowed_property_setter_stays_a_setter() {
    let mut context = Context::PropertyLetSet { class_name: "Shape".to_string() };
    let nested = context.reborrow();
    assert!(matches!(nested, Context::PropertyLetSet { ref class_name } if class_name == "Shape"));
    assert!(!nested.allows_await());
}

#[test]
fn a_reborrowed_sub_keeps_its_async_flag() {
    let mut context = Context::Sub { is_async: true };
    let nested = context.reborrow();
    assert!(nested.allows_await());
    assert_eq!(nested.current_class(), None);
}
