use nshell::executor::pick_any_thread;

#[test]
fn tasks_go_round_the_threads() {
    let mut counter = 0;
    let mut picked = Vec::new();
    for _ in 0..7 {
        let (thread, next) = pick_any_thread(counter, 3);
        picked.push(thread);
        counter = next;
    }
    assert_eq!(picked, vec![0, 1, 2, 0, 1, 2, 0]);
    assert_eq!(counter, 7);
}

#[test]
fn the_spawn_counter_wraps() {
    assert_eq!(pick_any_thread(usize::MAX, 4), (usize::MAX % 4, 0));
}
