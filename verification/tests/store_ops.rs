use zhaba::actor::{dispatch, resume, CreatePostArgs, Effect, Outcome, Reply, Request, Step};
use zhaba::images::InsertImage;
use zhaba::models::{Board, PostRecord};
use zhaba::store::{CreateBoardError, CreatePostError, CreateStep, Store, UpdateBoardError};
use zhaba::whois::WhoisResult;

fn board_request(name: &str) -> Request {
    Request::CreateBoard {
        name: name.to_string(),
        description: format!("about {name}"),
        color: 0xff0000,
    }
}

fn make_board(store: &mut Store, name: &str) -> i64 {
    match store.create_board(name.to_string(), format!("about {name}"), 0x123456) {
        Ok(id) => id,
        Err(e) => panic!("could not create board: {e:?}"),
    }
}

fn plain_post(store: &mut Store, board: &str, content: &str, time: i64) -> u64 {
    let step = store.create_post(
        &board.to_string(),
        content.to_string(),
        "198.51.100.7".to_string(),
        None,
        None,
        None,
        time,
    );
    match step {
        CreateStep::Done(Ok(id)) => id,
        other => panic!("expected a created post, got {:?}", discriminant(&other)),
    }
}

fn discriminant(step: &CreateStep) -> &'static str {
    match step {
        CreateStep::Done(Ok(_)) => "done-ok",
        CreateStep::Done(Err(_)) => "done-err",
        CreateStep::NeedImageWrite(_) => "need-image-write",
    }
}

#[test]
fn create_post_ids_follow_submission_order() {
    let mut store = Store::new();
    make_board(&mut store, "b");
    let first = plain_post(&mut store, "b", "first", 100);
    let second = plain_post(&mut store, "b", "second", 100);
    assert!(second > first);
    let listed = store.list_posts_in_range(1, 0, 1000);
    assert_eq!(listed.len(), 2);
    assert!(listed.iter().any(|p| p.id == first));
    assert!(listed.iter().any(|p| p.id == second));
}

#[test]
fn failed_image_write_leaves_no_row() {
    let mut store = Store::new();
    make_board(&mut store, "b");
    let step = store.create_post(
        &"b".to_string(),
        "with image".to_string(),
        "198.51.100.7".to_string(),
        None,
        None,
        Some(InsertImage {
            bytes: vec![1, 2, 3],
            filename: "abc.png".to_string(),
        }),
        50,
    );
    let plan = match step {
        CreateStep::NeedImageWrite(plan) => plan,
        other => panic!("expected an image write, got {}", discriminant(&other)),
    };
    let res = store.finish_create_post(plan, false);
    assert_eq!(res, Err(CreatePostError::ImageWrite));
    assert!(store.list_posts_in_range(1, 0, 1000).is_empty());
}

#[test]
fn delete_round_trip_returns_image() {
    let mut store = Store::new();
    make_board(&mut store, "b");
    let step = store.create_post(
        &"b".to_string(),
        "with image".to_string(),
        "198.51.100.7".to_string(),
        None,
        None,
        Some(InsertImage {
            bytes: vec![1, 2, 3],
            filename: "stem1234.png".to_string(),
        }),
        50,
    );
    let plan = match step {
        CreateStep::NeedImageWrite(plan) => plan,
        other => panic!("expected an image write, got {}", discriminant(&other)),
    };
    let id = store.finish_create_post(plan, true).expect("row inserted");
    let deleted = store.delete_post(id);
    assert_eq!(deleted, Some(Some("stem1234.png".to_string())));
    assert!(store.list_posts_in_range(1, 0, 1000).is_empty());
    assert_eq!(store.delete_post(id), None);
}

#[test]
fn image_store_tracking_is_queryable() {
    let mut store = Store::new();
    make_board(&mut store, "b");
    assert!(!store.has_image_file(&"stem1234.png".to_string()));
    let step = store.create_post(
        &"b".to_string(),
        "with image".to_string(),
        "198.51.100.7".to_string(),
        None,
        None,
        Some(InsertImage {
            bytes: vec![1, 2, 3],
            filename: "stem1234.png".to_string(),
        }),
        50,
    );
    let plan = match step {
        CreateStep::NeedImageWrite(plan) => plan,
        other => panic!("expected an image write, got {}", discriminant(&other)),
    };
    store.finish_create_post(plan, true).expect("row inserted");
    assert!(store.has_image_file(&"stem1234.png".to_string()));
    assert!(!store.has_image_file(&"other000.png".to_string()));
}

#[test]
fn duplicate_board_name_is_a_conflict() {
    let mut store = Store::new();
    let id = make_board(&mut store, "b");
    let res = store.create_board("b".to_string(), "other".to_string(), 7);
    assert_eq!(res, Err(CreateBoardError::NameTaken));
    let kept = store.get_board_by_name(&"b".to_string()).expect("board stays");
    assert_eq!(kept.id, id);
    assert_eq!(kept.description, "about b".to_string());
    assert_eq!(kept.color, 0x123456);
}

#[test]
fn reply_resolution_and_missing_target() {
    let mut store = Store::new();
    make_board(&mut store, "b");
    let target = plain_post(&mut store, "b", "target", 100);
    let step = store.create_post(
        &"b".to_string(),
        "the reply".to_string(),
        "198.51.100.7".to_string(),
        None,
        Some(target),
        None,
        200,
    );
    let reply_id = match step {
        CreateStep::Done(Ok(id)) => id,
        other => panic!("expected a created post, got {}", discriminant(&other)),
    };
    let listed = store.list_posts_in_range(1, 0, 1000);
    let reply_post = listed.iter().find(|p| p.id == reply_id).expect("listed");
    let projection = reply_post.reply.as_ref().expect("projection present");
    assert_eq!(projection.id, target);
    assert_eq!(projection.time, 100);
    assert_eq!(projection.board, 1);
    assert_eq!(projection.board_name, "b".to_string());

    let step = store.create_post(
        &"b".to_string(),
        "dangling".to_string(),
        "198.51.100.7".to_string(),
        None,
        Some(9999),
        None,
        300,
    );
    match step {
        CreateStep::Done(Err(CreatePostError::ReplyNotFound)) => {}
        other => panic!("expected the missing-reply error, got {}", discriminant(&other)),
    }
    assert_eq!(store.list_posts_in_range(1, 0, 1000).len(), 2);
}

#[test]
fn deleted_reply_target_leaves_projection_absent() {
    let mut store = Store::new();
    make_board(&mut store, "b");
    let target = plain_post(&mut store, "b", "target", 100);
    let step = store.create_post(
        &"b".to_string(),
        "the reply".to_string(),
        "198.51.100.7".to_string(),
        None,
        Some(target),
        None,
        200,
    );
    let reply_id = match step {
        CreateStep::Done(Ok(id)) => id,
        other => panic!("expected a created post, got {}", discriminant(&other)),
    };
    assert!(store.delete_post(target).is_some());
    let listed = store.list_posts_in_range(1, 0, 1000);
    assert_eq!(listed.len(), 1);
    assert_eq!(listed[0].id, reply_id);
    assert!(listed[0].reply.is_none());
}

#[test]
fn range_listing_is_inclusive_and_newest_first() {
    let mut store = Store::new();
    make_board(&mut store, "b");
    plain_post(&mut store, "b", "a", 100);
    plain_post(&mut store, "b", "b", 200);
    plain_post(&mut store, "b", "c", 300);

    let middle = store.list_posts_in_range(1, 150, 250);
    assert_eq!(middle.len(), 1);
    assert_eq!(middle[0].time, 200);

    let all = store.list_posts_in_range(1, 0, 1000);
    let times: Vec<i64> = all.iter().map(|p| p.time).collect();
    assert_eq!(times, vec![300, 200, 100]);

    let bounds = store.list_posts_in_range(1, 100, 300);
    assert_eq!(bounds.len(), 3);

    let other_board = store.list_posts_in_range(2, 0, 1000);
    assert!(other_board.is_empty());
}

#[test]
fn update_board_renames_and_rejects_taken_names() {
    let mut store = Store::new();
    let first = make_board(&mut store, "one");
    make_board(&mut store, "two");
    let res = store.update_board(Board {
        id: first,
        name: "two".to_string(),
        description: "x".to_string(),
        color: 1,
    });
    assert_eq!(res, Err(UpdateBoardError::NameTaken));
    assert!(store.get_board_by_name(&"one".to_string()).is_some());

    let res = store.update_board(Board {
        id: first,
        name: "renamed".to_string(),
        description: "fresh".to_string(),
        color: 9,
    });
    assert_eq!(res, Ok(()));
    let renamed = store.get_board_by_name(&"renamed".to_string()).expect("renamed");
    assert_eq!(renamed.id, first);
    assert_eq!(renamed.description, "fresh".to_string());

    let res = store.update_board(Board {
        id: 555,
        name: "ghost".to_string(),
        description: "".to_string(),
        color: 0,
    });
    assert_eq!(res, Ok(()));
    assert!(store.get_board_by_name(&"ghost".to_string()).is_none());
}

#[test]
fn delete_board_keeps_posts() {
    let mut store = Store::new();
    let id = make_board(&mut store, "b");
    plain_post(&mut store, "b", "orphan to be", 10);
    assert!(store.delete_board(id));
    assert!(store.get_board_by_name(&"b".to_string()).is_none());
    assert_eq!(store.list_posts_in_range(id, 0, 100).len(), 1);
    assert!(!store.delete_board(id));
}

#[test]
fn list_boards_in_creation_order() {
    let mut store = Store::new();
    assert!(store.list_boards().is_empty());
    make_board(&mut store, "one");
    make_board(&mut store, "two");
    make_board(&mut store, "three");
    let names: Vec<String> = store.list_boards().into_iter().map(|b| b.name).collect();
    assert_eq!(names, vec!["one".to_string(), "two".to_string(), "three".to_string()]);
}

#[test]
fn restore_rebuilds_store_from_rows() {
    let mut store = Store::new();
    assert!(store.restore_board(Board {
        id: 3,
        name: "b".to_string(),
        description: "d".to_string(),
        color: 5,
    }));
    // Duplicate name and stale id are refused.
    assert!(!store.restore_board(Board {
        id: 9,
        name: "b".to_string(),
        description: "again".to_string(),
        color: 5,
    }));
    assert!(!store.restore_board(Board {
        id: 2,
        name: "older".to_string(),
        description: "".to_string(),
        color: 0,
    }));
    assert!(store.restore_post(PostRecord {
        id: 7,
        content: "old post".to_string(),
        image: Some("img0001.png".to_string()),
        ip: "192.0.2.1".to_string(),
        whois: Some(WhoisResult { asn: 64512, mnt: "EXAMPLE-MNT".to_string() }),
        reply: None,
        board: 3,
        time: 40,
    }));
    // A stale id and a reused image name are refused.
    assert!(!store.restore_post(PostRecord {
        id: 7,
        content: "again".to_string(),
        image: None,
        ip: "192.0.2.1".to_string(),
        whois: None,
        reply: None,
        board: 3,
        time: 41,
    }));
    assert!(!store.restore_post(PostRecord {
        id: 8,
        content: "same image".to_string(),
        image: Some("img0001.png".to_string()),
        ip: "192.0.2.1".to_string(),
        whois: None,
        reply: None,
        board: 3,
        time: 42,
    }));
    // New posts continue above the restored ids.
    let next = plain_post(&mut store, "b", "fresh", 50);
    assert_eq!(next, 8);
    let listed = store.list_posts_in_range(3, 0, 100);
    assert_eq!(listed.len(), 2);
    let whois = listed[1].whois.as_ref().expect("whois kept");
    assert_eq!(whois.asn, 64512);
    assert_eq!(whois.mnt, "EXAMPLE-MNT".to_string());
}

#[test]
fn id_space_exhaustion_is_reported() {
    let mut store = Store::new();
    make_board(&mut store, "b");
    assert!(store.restore_post(PostRecord {
        id: u64::MAX - 1,
        content: "last".to_string(),
        image: None,
        ip: "192.0.2.1".to_string(),
        whois: None,
        reply: None,
        board: 1,
        time: 1,
    }));
    let step = store.create_post(
        &"b".to_string(),
        "one too many".to_string(),
        "192.0.2.1".to_string(),
        None,
        None,
        None,
        2,
    );
    match step {
        CreateStep::Done(Err(CreatePostError::Full)) => {}
        other => panic!("expected the full store, got {}", discriminant(&other)),
    }
}

#[test]
fn missing_board_fails_creation() {
    let mut store = Store::new();
    let step = store.create_post(
        &"nowhere".to_string(),
        "text".to_string(),
        "192.0.2.1".to_string(),
        None,
        None,
        None,
        1,
    );
    match step {
        CreateStep::Done(Err(CreatePostError::BoardNotFound)) => {}
        other => panic!("expected the missing board, got {}", discriminant(&other)),
    }
}

#[test]
fn dispatch_serves_the_protocol() {
    let mut store = Store::new();
    let step = dispatch(&mut store, board_request("b"), 10);
    match step {
        Step::Done(Outcome { reply: Reply::BoardCreated(Ok(1)), effect: Effect::Nothing }) => {}
        _ => panic!("expected the first board id"),
    }
    let step = dispatch(&mut store, board_request("b"), 11);
    match step {
        Step::Done(Outcome {
            reply: Reply::BoardCreated(Err(CreateBoardError::NameTaken)),
            ..
        }) => {}
        _ => panic!("expected the name conflict"),
    }
    let step = dispatch(
        &mut store,
        Request::CreatePost(CreatePostArgs {
            board: "b".to_string(),
            content: "hello".to_string(),
            ip: "192.0.2.1".to_string(),
            whois: None,
            reply: None,
            image: None,
        }),
        100,
    );
    match step {
        Step::Done(Outcome { reply: Reply::PostCreated(Ok(1)), effect: Effect::Nothing }) => {}
        _ => panic!("expected the first post id"),
    }
    let step = dispatch(
        &mut store,
        Request::ListPostsInRange { board: 1, start: 0, end: 1000 },
        101,
    );
    match step {
        Step::Done(Outcome { reply: Reply::Posts(ps), .. }) => {
            assert_eq!(ps.len(), 1);
            assert_eq!(ps[0].content, "hello".to_string());
            assert_eq!(ps[0].time, 100);
        }
        _ => panic!("expected the posts"),
    }
    let step = dispatch(&mut store, Request::GetBoardByName { name: "b".to_string() }, 102);
    match step {
        Step::Done(Outcome { reply: Reply::BoardFound(Some(b)), .. }) => {
            assert_eq!(b.id, 1);
        }
        _ => panic!("expected the board"),
    }
    let step = dispatch(&mut store, Request::DeletePost { id: 1 }, 103);
    match step {
        Step::Done(Outcome { reply: Reply::PostDeleted(true), effect: Effect::Nothing }) => {}
        _ => panic!("expected the deletion"),
    }
}

#[test]
fn dispatch_image_write_resumes() {
    let mut store = Store::new();
    dispatch(&mut store, board_request("b"), 10);
    let step = dispatch(
        &mut store,
        Request::CreatePost(CreatePostArgs {
            board: "b".to_string(),
            content: "with image".to_string(),
            ip: "192.0.2.1".to_string(),
            whois: None,
            reply: None,
            image: Some(InsertImage {
                bytes: vec![9, 9, 9],
                filename: "name0001.gif".to_string(),
            }),
        }),
        100,
    );
    let plan = match step {
        Step::NeedImageWrite(plan) => plan,
        _ => panic!("expected the image write"),
    };
    assert_eq!(plan.time, 100);
    assert_eq!(plan.board_id, 1);
    let outcome = resume(&mut store, plan, true);
    let id = match outcome.reply {
        Reply::PostCreated(Ok(id)) => id,
        _ => panic!("expected the created post"),
    };
    let step = dispatch(&mut store, Request::DeletePost { id }, 101);
    match step {
        Step::Done(Outcome {
            reply: Reply::PostDeleted(true),
            effect: Effect::RemoveFile(name),
        }) => assert_eq!(name, "name0001.gif".to_string()),
        _ => panic!("expected the file removal effect"),
    }
}
