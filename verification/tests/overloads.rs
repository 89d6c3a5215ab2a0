use valo_semantics::overloads::{resolve, ParamShape, Resolution};
use valo_semantics::type_model::TypeName;

fn param(ty: TypeName) -> ParamShape {
    ParamShape { ty, is_optional: false, is_param_array: false }
}

#[test]
fn a_lone_candidate_wins_without_looking_at_the_arguments() {
    let candidates = vec![vec![param(TypeName::String)]];
    assert_eq!(resolve(&candidates, &[Some(TypeName::Int32)]), Resolution::Single(0));
}

#[test]
fn arity_alone_can_decide() {
    let candidates = vec![
        vec![param(TypeName::Double)],
        vec![param(TypeName::Double), param(TypeName::Double)],
    ];
    assert_eq!(resolve(&candidates, &[Some(TypeName::Double)]), Resolution::Single(0));
    assert_eq!(
        resolve(&candidates, &[Some(TypeName::Double), Some(TypeName::Double)]),
        Resolution::Single(1)
    );
}

#[test]
fn an_exact_type_beats_one_that_would_convert() {
    let candidates = vec![vec![param(TypeName::String)], vec![param(TypeName::Int32)]];
    assert_eq!(resolve(&candidates, &[Some(TypeName::String)]), Resolution::Single(0));
    assert_eq!(resolve(&candidates, &[Some(TypeName::Int32)]), Resolution::Single(1));
}

/// Both widen, so the one that widens less wins.
#[test]
fn the_nearer_widening_wins() {
    let candidates = vec![vec![param(TypeName::Double)], vec![param(TypeName::Int32)]];
    assert_eq!(resolve(&candidates, &[Some(TypeName::Int16)]), Resolution::Single(1));
}

#[test]
fn widening_beats_narrowing() {
    let candidates = vec![vec![param(TypeName::Double)], vec![param(TypeName::Byte)]];
    assert_eq!(resolve(&candidates, &[Some(TypeName::Int32)]), Resolution::Single(0));
}

#[test]
fn nothing_fitting_is_reported_rather_than_guessed() {
    let candidates = vec![vec![param(TypeName::Int32)], vec![param(TypeName::String)]];
    assert_eq!(resolve(&candidates, &[]), Resolution::NoMatch);
}

/// Better for one argument and worse for another is not "better overall".
#[test]
fn a_call_that_could_go_either_way_is_ambiguous() {
    let candidates = vec![
        vec![param(TypeName::Int32), param(TypeName::Double)],
        vec![param(TypeName::Double), param(TypeName::Int32)],
    ];
    assert_eq!(
        resolve(&candidates, &[Some(TypeName::Int32), Some(TypeName::Int32)]),
        Resolution::Ambiguous(vec![0, 1])
    );
}

#[test]
fn an_optional_parameter_lets_a_shorter_call_through() {
    let candidates = vec![
        vec![
            param(TypeName::Int32),
            ParamShape { ty: TypeName::Int32, is_optional: true, is_param_array: false },
        ],
        vec![param(TypeName::String)],
    ];
    assert_eq!(resolve(&candidates, &[Some(TypeName::Int32)]), Resolution::Single(0));
}

#[test]
fn a_param_array_absorbs_any_number_of_trailing_arguments() {
    let candidates = vec![
        vec![param(TypeName::Int32)],
        vec![ParamShape {
            ty: TypeName::Array(Box::new(TypeName::Int32)),
            is_optional: false,
            is_param_array: true,
        }],
    ];
    assert_eq!(
        resolve(&candidates, &[Some(TypeName::Int32), Some(TypeName::Int32), Some(TypeName::Int32)]),
        Resolution::Single(1)
    );
}

#[test]
fn an_unknown_argument_type_fits_any_parameter() {
    let candidates = vec![vec![param(TypeName::Int32)], vec![param(TypeName::Int32), param(TypeName::String)]];
    assert_eq!(resolve(&candidates, &[None]), Resolution::Single(0));
}

#[test]
fn a_missing_required_argument_rules_a_candidate_out() {
    let candidates = vec![
        vec![param(TypeName::Int32), param(TypeName::Int32)],
        vec![param(TypeName::Int32), param(TypeName::Int32), param(TypeName::Int32)],
    ];
    assert_eq!(resolve(&candidates, &[Some(TypeName::Int32)]), Resolution::NoMatch);
}
