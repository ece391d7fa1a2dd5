use wtftw::stack::Stack;
use wtftw::workspace::Workspace;

#[test]
fn from_element() {
    let stack = Stack::<u32>::from_element(42);
    assert!(stack.focus == 42);
    assert!(stack.up.is_empty());
    assert!(stack.down.is_empty());
}

#[test]
fn add() {
    let stack1 = Stack::<u32>::from_element(42);
    let stack2 = stack1.add(23);

    assert!(stack2.down.first().unwrap() == &stack1.focus);
    assert!(stack2.focus == 23);
}

#[test]
fn integrate() {
    let stack = Stack::<u32>::from_element(42);
    assert!(stack.integrate() == vec!(42));

    let stack2: Stack<u32> = Stack {
        focus: 1,
        up: vec!(2, 3),
        down: vec!(4, 5),
    };
    assert!(stack2.integrate() == vec!(3, 2, 1, 4, 5));
}

#[test]
fn filter_some() {
    let mut stack = Stack::<u32>::from_element(42);
    for i in 0..50 {
        stack = stack.add(2 * i + 1);
    }

    assert!(stack.filter(|&x| x % 2 == 0) == Some(Stack::<u32>::from_element(42)))
}

#[test]
fn filter_none() {
    let mut stack = Stack::<u32>::from_element(43);
    for i in 0..50 {
        stack = stack.add(2 * i + 1);
    }

    assert!(stack.filter(|&x| x % 2 == 0) == None)
}

#[test]
fn len() {
    let mut stack = Stack::<u32>::from_element(100);
    for i in 0..50 {
        stack = stack.add(i);
    }
    assert!(stack.len() == 51);
}

#[test]
fn contains() {
    let stack = Stack::<u32>::from_element(42);
    assert!(stack.contains(42));
    assert!(!stack.contains(23));
}

#[test]
fn core_new() {
    let stack = Stack::<u64>::from_element(42);
    let workspace = Workspace::new(42, String::from("test"), Some(stack));

    assert!(workspace.id == 42);
}

#[test]
fn windows_some() {
    let stack = Stack::<u64>::from_element(42);
    let workspace = Workspace::new(42, String::from("test"), Some(stack.clone()));

    assert!(workspace.windows() == stack.integrate())
}

#[test]
fn windows_none() {
    let workspace = Workspace::new(42, String::from("test"), None);
    assert!(workspace.windows() == Vec::<u64>::new())
}

#[test]
fn stack_add() {
    let s1 = Stack::from_element(42);
    let s2 = s1.add(23);

    assert!(s2.focus == 23);
    assert!(s1.up == s2.up);
    assert!(s1.focus == s2.down[0]);
}

#[test]
fn stack_integrate() {
    let s1 = Stack::new(1, vec!(2, 3), vec!(4, 5, 6));
    assert!(s1.integrate() == vec!(3, 2, 1, 4, 5, 6));
}

#[test]
fn stack_filter() {
    let s1 = Stack::new(1, vec!(2, 3), vec!(4, 5, 6));
    let s2 = s1.filter(|&x| x != 3);

    assert!(s2.is_some());
    assert!(s2.unwrap() == Stack::new(1, vec!(2), vec!(4, 5, 6)));
}

#[test]
fn stack_focus_up() {
    let s1 = Stack::new(1, vec!(2, 3), vec!(4, 5, 6));
    let s2 = s1.focus_up();

    assert!(s2 == Stack::new(2, vec!(3), vec!(1, 4, 5, 6)));
}

#[test]
fn stack_focus_down() {
    let s1 = Stack::new(1, vec!(2, 3), vec!(4, 5, 6));
    let s2 = s1.focus_down();

    assert!(s2 == Stack::new(4, vec!(1, 2, 3), vec!(5, 6)));
}

#[test]
fn stack_reverse() {
    let v1 = vec!(2, 3);
    let v2 = vec!(4, 5, 6);

    let s1 = Stack::new(1, v1.clone(), v2.clone());
    let s2 = Stack::new(1, v2.clone(), v1.clone());

    assert!(s1.reverse() == s2);
    assert!(s2.reverse() == s1);
    assert!(s1.reverse().reverse() == s1);
}

#[test]
fn stack_len() {
    let s1 = Stack::new(1, vec!(2, 3), vec!(4, 5, 6));

    assert!(s1.len() == 6);
}

#[test]
fn stack_contains() {
    let s1 = Stack::new(42, vec!(2, 3), vec!(4, 5, 6));
    let s2 = Stack::new(23, Vec::new(), Vec::new());

    assert!(s1.contains(42));
    assert!(!s1.contains(23));
    assert!(!s2.contains(42));
    assert!(s2.contains(23));
}

#[test]
fn workspace_contains() {
    let s1 = Stack::new(42, vec!(2, 3), vec!(4, 5, 6));
    let w1 = Workspace::new(1, String::from("Foo"), Some(s1));
    let w2 = Workspace::new(1, String::from("Foo"), None);

    assert!(w1.contains(42));
    assert!(!w1.contains(23));
    assert!(!w2.contains(2));
}
