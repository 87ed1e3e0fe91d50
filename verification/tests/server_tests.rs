use psy::server::ServerRegistry;

#[test]
fn servers_are_created_routed_started_and_stopped() {
    let mut reg: ServerRegistry<u8> = ServerRegistry::new();
    assert_eq!(reg.create("server_a".to_string(), 8080, 1), Ok(()));
    assert_eq!(reg.create("server_b".to_string(), 9090, 2), Ok(()));
    assert_eq!(
        reg.create("server_c".to_string(), 8080, 3),
        Err("A server on port 8080 already exists".to_string())
    );
    assert_eq!(reg.route("server_a", "get", "/users".to_string()), Ok(()));
    assert_eq!(reg.servers[0].routes, vec![("GET".to_string(), "/users".to_string())]);
    assert_eq!(reg.route("nope", "GET", "/".to_string()), Err("Server 'nope' not found".to_string()));
    assert_eq!(reg.start_listening("server_b"), Ok(9090));
    assert_eq!(reg.start_listening("server_b"), Err("Server 'server_b' is already listening".to_string()));
    assert_eq!(reg.start_listening("nope"), Err("Server 'nope' not found".to_string()));
    assert_eq!(reg.handle("server_b"), Ok(&2));
    assert_eq!(
        reg.list(),
        vec!["server_a (port: 8080, listening: false)".to_string(), "server_b (port: 9090, listening: true)".to_string()]
    );
    let stopped = reg.stop("server_a").unwrap();
    assert_eq!(stopped.handle, 1);
    assert_eq!(stopped.port, 8080);
    assert!(reg.stop("server_a").is_err());
    assert_eq!(reg.create("server_c".to_string(), 8080, 3), Ok(()));
    assert_eq!(reg.list().len(), 2);
}

#[test]
fn a_server_created_again_under_its_identifier_is_replaced() {
    let mut reg: ServerRegistry<u8> = ServerRegistry::new();
    assert_eq!(reg.create("s".to_string(), 1000, 1), Ok(()));
    assert_eq!(reg.start_listening("s"), Ok(1000));
    assert_eq!(reg.create("s".to_string(), 2000, 2), Ok(()));
    assert_eq!(reg.list(), vec!["s (port: 2000, listening: false)".to_string()]);
}
