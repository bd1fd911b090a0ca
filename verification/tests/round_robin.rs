use multi_ip_proxy::proxy::MultiIPProxy;

fn pool(addrs: &[&str]) -> Vec<String> {
    addrs.iter().map(|a| a.to_string()).collect()
}

#[test]
fn full_cycle_uses_each_address_once() {
    let addrs = pool(&["10.0.0.1", "10.0.0.2", "10.0.0.3"]);
    let mut proxy = MultiIPProxy::new(addrs.clone(), "user", "pass");
    let mut seen: Vec<String> = Vec::new();
    for _ in 0..3 {
        seen.push(proxy.select_next_ip());
    }
    let mut expected = addrs.clone();
    expected.sort();
    seen.sort();
    assert_eq!(seen, expected);
}

#[test]
fn full_cycle_from_nonzero_start() {
    let addrs = pool(&["10.0.0.1", "10.0.0.2", "10.0.0.3"]);
    let mut proxy = MultiIPProxy::new(addrs.clone(), "user", "pass");
    proxy.select_next_ip();
    proxy.select_next_ip();
    let mut seen: Vec<String> = Vec::new();
    for _ in 0..3 {
        seen.push(proxy.select_next_ip());
    }
    let mut expected = addrs.clone();
    expected.sort();
    seen.sort();
    assert_eq!(seen, expected);
}

#[test]
fn single_address_pool_always_selected() {
    let mut proxy = MultiIPProxy::new(pool(&["192.168.1.9"]), "user", "pass");
    for _ in 0..5 {
        assert_eq!(proxy.select_next_ip(), "192.168.1.9");
    }
}

#[test]
fn counter_advances_once_per_selection() {
    let mut proxy = MultiIPProxy::new(pool(&["10.0.0.1", "10.0.0.2"]), "user", "pass");
    assert_eq!(proxy.request_count(), 0);
    proxy.select_next_ip();
    assert_eq!(proxy.request_count(), 1);
    proxy.select_next_ip();
    assert_eq!(proxy.request_count(), 2);
}

#[test]
fn selection_order_is_cyclic() {
    let mut proxy = MultiIPProxy::new(pool(&["a", "b", "c"]), "user", "pass");
    let round_one: Vec<String> = (0..3).map(|_| proxy.select_next_ip()).collect();
    let round_two: Vec<String> = (0..3).map(|_| proxy.select_next_ip()).collect();
    assert_eq!(round_one, vec!["a", "b", "c"]);
    assert_eq!(round_one, round_two);
}
