use todo_store::{create_todo, delete_todo, get_todos, index, rocket, update_todo, Todo, TodoList};

fn todo(id: usize, title: &str, completed: bool) -> Todo {
    Todo { id, title: title.to_string(), completed }
}

fn ids(todos: &TodoList) -> Vec<usize> {
    get_todos(todos).iter().map(|t| t.id).collect()
}

fn store_of(titles: &[&str]) -> TodoList {
    let mut todos = TodoList::new();
    for title in titles {
        create_todo(&mut todos, todo(0, title, false));
    }
    todos
}

#[test]
fn readiness_line() {
    assert_eq!(index(), "Todo API is running!");
}

#[test]
fn initial_store_is_seeded_with_two_open_tasks() {
    let todos = rocket();
    assert_eq!(todos.len(), 2);
    assert_eq!(
        get_todos(&todos),
        vec![todo(1, "Learn Rust", false), todo(2, "Build a Todo App", false)]
    );
}

#[test]
fn new_store_is_empty() {
    let todos = TodoList::new();
    assert_eq!(todos.len(), 0);
    assert_eq!(get_todos(&todos), Vec::<Todo>::new());
}

#[test]
fn first_create_in_empty_store_gets_id_one() {
    let mut todos = TodoList::new();
    let created = create_todo(&mut todos, todo(0, "only", true));
    assert_eq!(created, todo(1, "only", true));
    assert_eq!(get_todos(&todos), vec![todo(1, "only", true)]);
}

#[test]
fn create_adds_exactly_one_record_with_count_plus_one() {
    let mut todos = store_of(&["a", "b", "c", "d"]);
    let before = get_todos(&todos);
    let created = create_todo(&mut todos, todo(0, "e", true));
    let after = get_todos(&todos);
    assert_eq!(created.id, before.len() + 1);
    assert_eq!(created, todo(5, "e", true));
    assert_eq!(after.len(), before.len() + 1);
    assert_eq!(&after[..before.len()], &before[..]);
    assert_eq!(after[before.len()], created);
    assert_eq!(todos.len(), 5);
}

#[test]
fn create_ignores_the_id_the_client_sent() {
    let mut todos = store_of(&["a"]);
    let created = create_todo(&mut todos, todo(4242, "b", false));
    assert_eq!(created.id, 2);
    assert_eq!(ids(&todos), vec![1, 2]);
}

#[test]
fn create_keeps_title_text_as_given() {
    let mut todos = TodoList::new();
    let created = create_todo(&mut todos, todo(0, "", false));
    assert_eq!(created.title, "");
    let created = create_todo(&mut todos, todo(0, "  caf\u{e9} \u{2713}\n", true));
    assert_eq!(created, todo(2, "  caf\u{e9} \u{2713}\n", true));
}

#[test]
fn listing_twice_gives_identical_results() {
    let todos = store_of(&["a", "b", "c"]);
    let first = get_todos(&todos);
    let second = get_todos(&todos);
    assert_eq!(first, second);
    assert_eq!(first.len(), 3);
}

#[test]
fn listing_is_a_copy() {
    let todos = store_of(&["a", "b"]);
    let mut listing = get_todos(&todos);
    listing[0].title.push_str(" changed");
    listing[1].id = 77;
    listing.pop();
    assert_eq!(get_todos(&todos), vec![todo(1, "a", false), todo(2, "b", false)]);
}

#[test]
fn update_changes_title_and_flag_only_at_the_same_position() {
    let mut todos = store_of(&["a", "b", "c"]);
    let updated = update_todo(&mut todos, 2, todo(0, "B", true));
    assert_eq!(updated, Some(todo(2, "B", true)));
    assert_eq!(
        get_todos(&todos),
        vec![todo(1, "a", false), todo(2, "B", true), todo(3, "c", false)]
    );
    assert_eq!(ids(&todos), vec![1, 2, 3]);
}

#[test]
fn update_ignores_the_id_in_the_patch() {
    let mut todos = store_of(&["a", "b"]);
    let updated = update_todo(&mut todos, 1, todo(2, "A", true));
    assert_eq!(updated, Some(todo(1, "A", true)));
    assert_eq!(get_todos(&todos), vec![todo(1, "A", true), todo(2, "b", false)]);
}

#[test]
fn update_can_clear_the_flag_again() {
    let mut todos = store_of(&["a"]);
    assert_eq!(update_todo(&mut todos, 1, todo(0, "a", true)), Some(todo(1, "a", true)));
    assert_eq!(update_todo(&mut todos, 1, todo(0, "a", false)), Some(todo(1, "a", false)));
    assert_eq!(get_todos(&todos), vec![todo(1, "a", false)]);
}

#[test]
fn update_of_absent_id_leaves_the_listing_unchanged() {
    let mut todos = store_of(&["a", "b"]);
    let before = get_todos(&todos);
    assert_eq!(update_todo(&mut todos, 3, todo(0, "x", true)), None);
    assert_eq!(update_todo(&mut todos, 0, todo(0, "x", true)), None);
    assert_eq!(update_todo(&mut todos, usize::MAX, todo(0, "x", true)), None);
    assert_eq!(get_todos(&todos), before);
}

#[test]
fn delete_of_absent_id_leaves_the_listing_unchanged() {
    let mut todos = store_of(&["a", "b"]);
    let before = get_todos(&todos);
    assert_eq!(delete_todo(&mut todos, 3), None);
    assert_eq!(delete_todo(&mut todos, 0), None);
    assert_eq!(delete_todo(&mut todos, usize::MAX), None);
    assert_eq!(get_todos(&todos), before);
}

#[test]
fn update_and_delete_on_empty_store_are_not_found() {
    let mut todos = TodoList::new();
    assert_eq!(update_todo(&mut todos, 1, todo(0, "x", false)), None);
    assert_eq!(delete_todo(&mut todos, 1), None);
    assert_eq!(todos.len(), 0);
}

#[test]
fn delete_removes_exactly_one_and_keeps_the_order_of_the_rest() {
    let mut todos = store_of(&["a", "b", "c", "d"]);
    assert_eq!(delete_todo(&mut todos, 2), Some(()));
    assert_eq!(todos.len(), 3);
    assert_eq!(
        get_todos(&todos),
        vec![todo(1, "a", false), todo(3, "c", false), todo(4, "d", false)]
    );
    assert!(!ids(&todos).contains(&2));
}

#[test]
fn delete_first_and_last() {
    let mut todos = store_of(&["a", "b", "c"]);
    assert_eq!(delete_todo(&mut todos, 1), Some(()));
    assert_eq!(ids(&todos), vec![2, 3]);
    assert_eq!(delete_todo(&mut todos, 3), Some(()));
    assert_eq!(ids(&todos), vec![2]);
    assert_eq!(delete_todo(&mut todos, 2), Some(()));
    assert_eq!(ids(&todos), Vec::<usize>::new());
}

#[test]
fn create_after_delete_can_repeat_an_id_in_use() {
    let mut todos = store_of(&["a", "b"]);
    assert_eq!(delete_todo(&mut todos, 1), Some(()));
    let created = create_todo(&mut todos, todo(0, "c", false));
    assert_eq!(created, todo(2, "c", false));
    assert_eq!(get_todos(&todos), vec![todo(2, "b", false), todo(2, "c", false)]);
}

#[test]
fn create_after_deleting_the_last_reuses_its_id() {
    let mut todos = store_of(&["a", "b"]);
    assert_eq!(delete_todo(&mut todos, 2), Some(()));
    let created = create_todo(&mut todos, todo(0, "c", false));
    assert_eq!(created, todo(2, "c", false));
    assert_eq!(ids(&todos), vec![1, 2]);
}

#[test]
fn update_of_a_repeated_id_changes_the_first_record_only() {
    let mut todos = store_of(&["a", "b"]);
    delete_todo(&mut todos, 1);
    create_todo(&mut todos, todo(0, "c", false));
    let updated = update_todo(&mut todos, 2, todo(0, "B", true));
    assert_eq!(updated, Some(todo(2, "B", true)));
    assert_eq!(get_todos(&todos), vec![todo(2, "B", true), todo(2, "c", false)]);
}

#[test]
fn delete_of_a_repeated_id_removes_the_first_record_only() {
    let mut todos = store_of(&["a", "b"]);
    delete_todo(&mut todos, 1);
    create_todo(&mut todos, todo(0, "c", false));
    assert_eq!(delete_todo(&mut todos, 2), Some(()));
    assert_eq!(get_todos(&todos), vec![todo(2, "c", false)]);
    assert_eq!(delete_todo(&mut todos, 2), Some(()));
    assert_eq!(todos.len(), 0);
    assert_eq!(delete_todo(&mut todos, 2), None);
}

#[test]
fn ids_stay_consecutive_without_deletes() {
    let mut todos = rocket();
    create_todo(&mut todos, todo(9, "c", false));
    update_todo(&mut todos, 2, todo(9, "B", true));
    create_todo(&mut todos, todo(9, "d", true));
    assert_eq!(ids(&todos), vec![1, 2, 3, 4]);
}

#[test]
fn records_compare_by_all_three_fields() {
    let a = todo(1, "a", false);
    assert_eq!(a, a.clone());
    assert_ne!(a, todo(2, "a", false));
    assert_ne!(a, todo(1, "b", false));
    assert_ne!(a, todo(1, "a", true));
}
