use reactive_state::binding::MessageBuilder;
use reactive_state::handler::Handler;
use reactive_state::handler::MessageMapper;
use reactive_state::scope::ScopeTree;
use reactive_state::selector::StateProjection;

pub enum Msg {
    UpdateOne(String),
    UpdateTwo(i32),
}

#[derive(Clone, PartialEq, Debug)]
pub struct FakeState {
    value_one: String,
    value_two: i32,
}

pub struct StateMachine();

impl MessageMapper<Msg, FakeState> for StateMachine {
    fn map_spec(&self, msg: Msg, original: FakeState) -> FakeState {
        self.map(msg, &original)
    }

    fn map(&self, msg: Msg, original: &FakeState) -> FakeState {
        match msg {
            Msg::UpdateOne(val) => {
                let mut new_state = original.clone();
                new_state.value_one = val;
                new_state
            }
            Msg::UpdateTwo(val) => {
                let mut new_state = original.clone();
                new_state.value_two = val;
                new_state
            }
        }
    }
}

pub struct OneBuilder;

impl MessageBuilder<String, Msg> for OneBuilder {
    fn message_spec(&self, val: String) -> Msg {
        Msg::UpdateOne(val)
    }

    fn message(&self, val: &String) -> Msg {
        Msg::UpdateOne(val.clone())
    }
}

pub struct TwoBuilder;

impl MessageBuilder<i32, Msg> for TwoBuilder {
    fn message_spec(&self, val: i32) -> Msg {
        Msg::UpdateTwo(val)
    }

    fn message(&self, val: &i32) -> Msg {
        Msg::UpdateTwo(*val)
    }
}

pub struct OneProjection;

impl StateProjection<FakeState, String> for OneProjection {
    fn project_spec(&self, state: FakeState) -> String {
        state.value_one
    }

    fn project(&self, state: &FakeState) -> String {
        state.value_one.clone()
    }

    fn outputs_equal(&self, a: &String, b: &String) -> bool {
        a == b
    }
}

pub struct TwoProjection;

impl StateProjection<FakeState, i32> for TwoProjection {
    fn project_spec(&self, state: FakeState) -> i32 {
        state.value_two
    }

    fn project(&self, state: &FakeState) -> i32 {
        state.value_two
    }

    fn outputs_equal(&self, a: &i32, b: &i32) -> bool {
        a == b
    }
}

fn initial_state() -> FakeState {
    FakeState {
        value_one: "foo".to_owned(),
        value_two: 0,
    }
}

#[test]
fn test_state_effect_flow() {
    let mut scopes = ScopeTree::new();
    let state = initial_state();
    let mut reducer = Handler::new(&scopes, 0, state, StateMachine());

    let child = scopes.create_child(0);
    let seed = reducer.read_signal().value_one.clone();
    let mut form_val = reducer.bind_trigger(&scopes, child, seed, OneBuilder);

    form_val.set_upstream(&scopes, &mut reducer, "bar".to_owned());
    assert_eq!(reducer.read_signal().value_one, "bar".to_owned());

    let grandchild = scopes.create_child(child);
    let mut num_val = reducer.bind_trigger(&scopes, grandchild, 0, TwoBuilder);
    num_val.set_upstream(&scopes, &mut reducer, 1);
    assert_eq!(reducer.read_signal().value_two, 1);
}

#[test]
fn test_dispatch_is_left_fold() {
    let scopes = ScopeTree::new();
    let mut reducer = Handler::new(&scopes, 0, initial_state(), StateMachine());

    reducer.dispatch(Msg::UpdateOne("a".to_owned()));
    reducer.dispatch(Msg::UpdateTwo(7));
    reducer.dispatch(Msg::UpdateOne("b".to_owned()));

    // map(UpdateOne("b"), map(UpdateTwo(7), map(UpdateOne("a"), initial)))
    let expected = FakeState {
        value_one: "b".to_owned(),
        value_two: 7,
    };
    assert!(*reducer.read_signal() == expected);
    assert_eq!(reducer.version_count(), 3);
}

#[test]
fn test_binding_dispatches_once_per_mutation() {
    let mut scopes = ScopeTree::new();
    let mut reducer = Handler::new(&scopes, 0, initial_state(), StateMachine());
    let child = scopes.create_child(0);

    let mut form_val = reducer.bind_trigger(&scopes, child, "foo".to_owned(), OneBuilder);
    // the binding is evaluated once at creation
    assert_eq!(reducer.version_count(), 1);

    form_val.set_upstream(&scopes, &mut reducer, "bar".to_owned());
    // exactly one dispatch, carrying the new upstream value
    assert_eq!(reducer.version_count(), 2);
    assert_eq!(reducer.read_signal().value_one, "bar".to_owned());

    form_val.set_upstream(&scopes, &mut reducer, "baz".to_owned());
    assert_eq!(reducer.version_count(), 3);
    assert_eq!(reducer.read_signal().value_one, "baz".to_owned());
}

#[test]
fn test_disposed_binding_stops_dispatching() {
    let mut scopes = ScopeTree::new();
    let mut reducer = Handler::new(&scopes, 0, initial_state(), StateMachine());
    let child = scopes.create_child(0);

    let mut num_val = reducer.bind_trigger(&scopes, child, 0, TwoBuilder);
    num_val.set_upstream(&scopes, &mut reducer, 5);
    assert_eq!(reducer.read_signal().value_two, 5);
    let version_before = reducer.version_count();

    scopes.dispose(child);

    // the upstream cell keeps changing, the handler stays alive, but the
    // binding no longer dispatches
    num_val.set_upstream(&scopes, &mut reducer, 9);
    num_val.set_upstream(&scopes, &mut reducer, 11);
    assert_eq!(reducer.read_signal().value_two, 5);
    assert_eq!(reducer.version_count(), version_before);
}

#[test]
fn test_selector_notifies_only_on_projection_change() {
    let mut scopes = ScopeTree::new();
    let mut reducer = Handler::new(&scopes, 0, initial_state(), StateMachine());
    let child = scopes.create_child(0);

    let mut one_view = reducer.get_selector(&scopes, child, OneProjection);
    assert_eq!(one_view.get(), "foo");

    // the underlying state changes but the projected value does not
    reducer.dispatch(Msg::UpdateTwo(42));
    assert!(!one_view.refresh(&scopes, &reducer));
    assert_eq!(one_view.get(), "foo");

    // the projected value changes: exactly one notification
    reducer.dispatch(Msg::UpdateOne("bar".to_owned()));
    assert!(one_view.refresh(&scopes, &reducer));
    assert_eq!(one_view.get(), "bar");

    // refreshed once, the selector is quiescent for the same value
    assert!(!one_view.refresh(&scopes, &reducer));

    // writing an equal value bumps the cell version but not the memo
    reducer.dispatch(Msg::UpdateOne("bar".to_owned()));
    assert!(!one_view.refresh(&scopes, &reducer));
    assert_eq!(one_view.get(), "bar");
}

#[test]
fn test_selectors_are_independent() {
    let mut scopes = ScopeTree::new();
    let mut reducer = Handler::new(&scopes, 0, initial_state(), StateMachine());
    let child = scopes.create_child(0);

    let mut one_view = reducer.get_selector(&scopes, child, OneProjection);
    let mut two_view = reducer.get_selector(&scopes, child, TwoProjection);

    // this update affects only the numeric projection
    reducer.dispatch(Msg::UpdateTwo(3));
    assert!(!one_view.refresh(&scopes, &reducer));
    assert!(two_view.refresh(&scopes, &reducer));
    assert_eq!(*two_view.get(), 3);

    // and this one only the text projection
    reducer.dispatch(Msg::UpdateOne("new".to_owned()));
    assert!(one_view.refresh(&scopes, &reducer));
    assert!(!two_view.refresh(&scopes, &reducer));
    assert_eq!(one_view.get(), "new");
}

#[test]
fn test_disposed_selector_stays_silent() {
    let mut scopes = ScopeTree::new();
    let mut reducer = Handler::new(&scopes, 0, initial_state(), StateMachine());
    let child = scopes.create_child(0);

    let mut one_view = reducer.get_selector(&scopes, child, OneProjection);
    scopes.dispose(child);

    reducer.dispatch(Msg::UpdateOne("bar".to_owned()));
    assert!(!one_view.refresh(&scopes, &reducer));
    // the memo keeps the last value it produced while live
    assert_eq!(one_view.get(), "foo");
}

#[test]
fn test_end_to_end_nested_scopes() {
    let mut scopes = ScopeTree::new();
    let mut reducer = Handler::new(&scopes, 0, initial_state(), StateMachine());

    // bind an upstream text field; setting it to "bar" updates value_one
    let outer = scopes.create_child(0);
    let mut text_field = reducer.bind_trigger(&scopes, outer, "foo".to_owned(), OneBuilder);
    text_field.set_upstream(&scopes, &mut reducer, "bar".to_owned());
    assert_eq!(reducer.read_signal().value_one, "bar".to_owned());
    assert_eq!(reducer.read_signal().value_two, 0);

    // within a nested scope, bind a second numeric field; setting it to 1
    // updates value_two
    let nested = scopes.create_child(outer);
    let mut num_field = reducer.bind_trigger(&scopes, nested, 0, TwoBuilder);
    num_field.set_upstream(&scopes, &mut reducer, 1);
    assert_eq!(reducer.read_signal().value_one, "bar".to_owned());
    assert_eq!(reducer.read_signal().value_two, 1);

    // disposing the nested scope ends the numeric binding; further changes
    // to that field leave the state untouched
    scopes.dispose(nested);
    num_field.set_upstream(&scopes, &mut reducer, 2);
    assert_eq!(reducer.read_signal().value_two, 1);

    // the outer binding is unaffected by the nested disposal
    text_field.set_upstream(&scopes, &mut reducer, "again".to_owned());
    assert_eq!(reducer.read_signal().value_one, "again".to_owned());
}
