use mamut::checker::model::{ExpectedResult, SimpleModel};

#[derive(Clone)]
struct TestRegisterModel;

#[derive(Clone, PartialEq)]
struct TestState(i32);

#[derive(Clone)]
enum TestOp {
    Read(i32),
    Write(i32),
}

impl SimpleModel for TestRegisterModel {
    type Op = TestOp;
    type State = TestState;

    fn init_spec(&self) -> Self::State {
        self.init()
    }

    fn step_spec(&self, state: Self::State, op: Self::Op) -> (Self::State, ExpectedResult) {
        self.step(&state, &op)
    }

    fn init(&self) -> Self::State {
        TestState(0)
    }

    fn step(&self, state: &Self::State, op: &Self::Op) -> (Self::State, ExpectedResult) {
        match op {
            TestOp::Read(v) => {
                if *v == state.0 {
                    (state.clone(), ExpectedResult::Success)
                } else {
                    (state.clone(), ExpectedResult::Failure("value mismatch".into()))
                }
            }
            TestOp::Write(v) => (TestState(*v), ExpectedResult::Success),
        }
    }
}

#[test]
fn test_simple_model() {
    let model = TestRegisterModel;
    let state = model.init();
    assert_eq!(state.0, 0);

    let (new_state, result) = model.step(&state, &TestOp::Write(42));
    assert_eq!(new_state.0, 42);
    assert_eq!(result, ExpectedResult::Success);

    let (_, result) = model.step(&new_state, &TestOp::Read(42));
    assert_eq!(result, ExpectedResult::Success);

    let (_, result) = model.step(&new_state, &TestOp::Read(0));
    assert!(matches!(result, ExpectedResult::Failure(_)));
}
