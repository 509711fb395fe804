use mamut::checker::model::{ExpectedResult, Model, SimpleModel};

#[derive(Clone)]
struct TestRegisterModel;

#[derive(Clone, PartialEq)]
struct TestState(i32);

#[derive(Clone)]
enum TestOp {
    Write(i32),
}

impl SimpleModel for TestRegisterModel {
    type Op = TestOp;
    type State = TestState;

    fn init_spec(&self) -> Self::State {
        SimpleModel::init(self)
    }

    fn step_spec(&self, state: Self::State, op: Self::Op) -> (Self::State, ExpectedResult) {
        SimpleModel::step(self, &state, &op)
    }

    fn init(&self) -> Self::State {
        TestState(0)
    }

    fn step(&self, _state: &Self::State, op: &Self::Op) -> (Self::State, ExpectedResult) {
        match op {
            TestOp::Write(v) => (TestState(*v), ExpectedResult::Success),
        }
    }
}

#[test]
fn test_state_equivalence() {
    let model = TestRegisterModel;
    let s1 = TestState(42);
    let s2 = TestState(42);
    let s3 = TestState(0);

    assert!(model.equivalent(&s1, &s2));
    assert!(!model.equivalent(&s1, &s3));
}

#[test]
fn simple_model_can_execute_anything() {
    let model = TestRegisterModel;
    let s = Model::init(&model);
    assert!(model.can_execute(&s, &TestOp::Write(3)));
    let (s2, r) = Model::step(&model, &s, &TestOp::Write(3));
    assert!(r.is_ok());
    assert!(model.equivalent(&s2, &TestState(3)));
}
