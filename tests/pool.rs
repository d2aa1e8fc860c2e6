use localtunnel_server::pool::Client;

#[test]
fn pool_takes_newest_first() {
    let mut pool = Client::new();
    pool.push("c1");
    pool.push("c2");
    pool.push("c3");
    assert_eq!(pool.take(), Some("c3"));
    assert_eq!(pool.take(), Some("c2"));
    assert_eq!(pool.take(), Some("c1"));
    assert_eq!(pool.take(), None);
}

#[test]
fn empty_pool_gives_nothing() {
    let mut pool: Client<u32> = Client::new();
    assert_eq!(pool.idle_count(), 0);
    assert_eq!(pool.take(), None);
    assert_eq!(pool.idle_count(), 0);
}

#[test]
fn push_after_take_is_next_out() {
    let mut pool = Client::new();
    pool.push(1u32);
    pool.push(2);
    assert_eq!(pool.take(), Some(2));
    pool.push(3);
    assert_eq!(pool.idle_count(), 2);
    assert_eq!(pool.take(), Some(3));
    assert_eq!(pool.take(), Some(1));
}
