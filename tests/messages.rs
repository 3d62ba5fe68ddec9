use partner_sync::{plan_message_ops, ApiError, MessageOp, MessagePass};

fn run_all_ok(pass: &mut MessagePass, next_id: &mut u64) -> Vec<MessageOp> {
    let mut calls = Vec::new();
    while let Some(op) = pass.next_op() {
        calls.push(op);
        match op {
            MessageOp::Edit { .. } => {
                pass.record_edit(Ok(())).unwrap();
            }
            MessageOp::Create { .. } => {
                *next_id += 1;
                pass.record_create(Ok(*next_id)).unwrap();
            }
            MessageOp::Delete { .. } => {
                pass.record_delete(Ok(())).unwrap();
            }
        }
    }
    calls
}

#[test]
fn two_messages_and_no_pages_delete_both_then_nothing() {
    let mut pass = MessagePass::new(vec![11, 12], 0);
    let mut next_id = 100;
    let calls = run_all_ok(&mut pass, &mut next_id);
    assert_eq!(
        calls,
        vec![MessageOp::Delete { message: 11 }, MessageOp::Delete { message: 12 }]
    );
    assert!(pass.is_complete());
    assert!(pass.published().is_empty());

    let mut second = MessagePass::new(pass.published(), 0);
    assert_eq!(second.next_op(), None);
    assert!(run_all_ok(&mut second, &mut next_id).is_empty());
    assert!(second.published().is_empty());
}

#[test]
fn one_message_and_three_pages_edit_then_create_twice() {
    let mut pass = MessagePass::new(vec![5], 3);
    let mut next_id = 100;
    let calls = run_all_ok(&mut pass, &mut next_id);
    assert_eq!(
        calls,
        vec![
            MessageOp::Edit { page: 0, message: 5 },
            MessageOp::Create { page: 1 },
            MessageOp::Create { page: 2 },
        ]
    );
    assert_eq!(pass.published(), vec![5, 101, 102]);

    // Reconciling again with the same pages only edits.
    let ops = plan_message_ops(&pass.published(), 3);
    assert_eq!(
        ops,
        vec![
            MessageOp::Edit { page: 0, message: 5 },
            MessageOp::Edit { page: 1, message: 101 },
            MessageOp::Edit { page: 2, message: 102 },
        ]
    );
}

#[test]
fn create_records_the_new_message() {
    let mut pass = MessagePass::new(Vec::new(), 1);
    assert_eq!(pass.next_op(), Some(MessageOp::Create { page: 0 }));
    assert_eq!(pass.record_create(Ok(77)), Ok(77));
    assert_eq!(pass.published(), vec![77]);
    assert!(pass.is_complete());
}

#[test]
fn delete_of_a_vanished_message_counts_as_done() {
    let mut pass = MessagePass::new(vec![1, 2, 3], 1);
    assert_eq!(pass.next_op(), Some(MessageOp::Edit { page: 0, message: 1 }));
    pass.record_edit(Ok(())).unwrap();
    assert_eq!(pass.next_op(), Some(MessageOp::Delete { message: 2 }));
    assert_eq!(pass.record_delete(Err(ApiError::NotFound)), Ok(2));
    assert_eq!(pass.published(), vec![1, 3]);
    assert_eq!(pass.record_delete(Ok(())), Ok(3));
    assert_eq!(pass.published(), vec![1]);
    assert!(pass.is_complete());
}

#[test]
fn other_failures_stop_the_pass() {
    let mut pass = MessagePass::new(vec![1, 2], 2);
    pass.record_edit(Ok(())).unwrap();
    assert_eq!(pass.record_edit(Err(ApiError::Other)), Err(ApiError::Other));
    assert_eq!(pass.next_op(), None);
    assert!(!pass.is_complete());
    assert_eq!(pass.failure(), Some(ApiError::Other));
    assert_eq!(pass.published(), vec![1, 2]);

    let mut pass = MessagePass::new(vec![9], 0);
    assert_eq!(pass.record_delete(Err(ApiError::Forbidden)), Err(ApiError::Forbidden));
    assert_eq!(pass.next_op(), None);
    assert_eq!(pass.published(), vec![9]);

    let mut pass = MessagePass::new(Vec::new(), 2);
    assert_eq!(pass.record_create(Err(ApiError::Other)), Err(ApiError::Other));
    assert!(pass.published().is_empty());
    assert_eq!(pass.next_op(), None);
}

#[test]
fn plan_zips_pages_and_messages_by_position() {
    assert_eq!(
        plan_message_ops(&vec![4, 5, 6], 1),
        vec![
            MessageOp::Edit { page: 0, message: 4 },
            MessageOp::Delete { message: 5 },
            MessageOp::Delete { message: 6 },
        ]
    );
    assert!(plan_message_ops(&Vec::new(), 0).is_empty());
}
