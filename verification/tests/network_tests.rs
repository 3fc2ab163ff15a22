use amazon_network::network::AmazonNetwork;
use amazon_network::NetworkError;
use amazon_network::Ratio;

fn fixture() -> AmazonNetwork {
    let mut net = AmazonNetwork::new();
    net.ingest_pairs(&vec![(1, 2), (1, 3), (2, 3)]);
    net
}

#[test]
fn test_nodes_with_extreme_degrees() {
    let mut amazon_network = AmazonNetwork::new();

    let nodes = vec![(1, 2), (1, 3), (2, 3)];
    amazon_network.ingest_pairs(&nodes);

    let result = amazon_network.nodes_with_extreme_degrees();

    let expected_result = Some((0, 2));

    assert_eq!(result, expected_result);
}

#[test]
fn test_registry_is_bijection_under_duplicates() {
    let mut net = AmazonNetwork::new();
    net.ingest_pairs(&vec![(1, 2), (1, 3), (2, 3), (1, 2), (3, 1)]);
    // distinct external identifiers: 1, 2, 3
    assert_eq!(net.node_count(), 3);
    assert_eq!(net.edge_count(), 5);
}

#[test]
fn test_degree_distribution_fixture() {
    let net = fixture();
    let dist = net.calculate_degree_distribution();
    assert_eq!(dist.get(&0), Some(&1));
    assert_eq!(dist.get(&1), Some(&1));
    assert_eq!(dist.get(&2), Some(&1));
    assert_eq!(dist.len(), 3);
}

#[test]
fn test_degree_distribution_sums_to_node_count() {
    let net = fixture();
    let dist = net.calculate_degree_distribution();
    let total: usize = dist.values().sum();
    assert_eq!(total, net.node_count());

    let empty = AmazonNetwork::new();
    let dist = empty.calculate_degree_distribution();
    let total: usize = dist.values().sum();
    assert_eq!(total, 0);
    assert!(dist.is_empty());
}

#[test]
fn test_average_degree_empty_graph_is_zero() {
    let net = AmazonNetwork::new();
    let avg = net.calculate_average_degree();
    assert_eq!(avg, Ratio { num: 0, den: 1 });
    assert_eq!(avg.num as f64 / avg.den as f64, 0.0);
}

#[test]
fn test_average_degree_fixture() {
    let net = fixture();
    let avg = net.calculate_average_degree();
    // (2 + 1 + 0) / 3
    assert_eq!(avg, Ratio { num: 3, den: 3 });
    assert_eq!(avg.num as f64 / avg.den as f64, 1.0);
}

#[test]
fn test_degree_centrality_insufficient_size() {
    let empty = AmazonNetwork::new();
    assert_eq!(
        empty.calculate_degree_centrality(),
        Err(NetworkError::InsufficientGraphSize)
    );

    let mut single = AmazonNetwork::new();
    single.ingest_pairs(&vec![(7, 7)]);
    assert_eq!(single.node_count(), 1);
    assert_eq!(
        single.calculate_degree_centrality(),
        Err(NetworkError::InsufficientGraphSize)
    );
}

#[test]
fn test_degree_centrality_fixture() {
    let net = fixture();
    let cent = net.calculate_degree_centrality().unwrap();
    assert_eq!(cent.get(&0), Some(&Ratio { num: 2, den: 2 }));
    assert_eq!(cent.get(&1), Some(&Ratio { num: 1, den: 2 }));
    assert_eq!(cent.get(&2), Some(&Ratio { num: 0, den: 2 }));
    let c0 = cent[&0];
    assert_eq!(c0.num as f64 / c0.den as f64, 1.0);
}

#[test]
fn test_tie_break_earliest_node_wins() {
    let mut net = AmazonNetwork::new();
    // nodes "1" (handle 0) and "2" (handle 1) both have out-degree 2;
    // nodes "3" (handle 2), "4" (handle 3) and "5" (handle 4) all have 0
    net.ingest_pairs(&vec![(1, 2), (1, 3), (2, 4), (2, 5)]);
    assert_eq!(net.nodes_with_extreme_degrees(), Some((0, 2)));
    assert_eq!(net.nodes_with_most_and_least_connections(), Some((0, 2)));
}

#[test]
fn test_extreme_degrees_empty_graph() {
    let net = AmazonNetwork::new();
    assert_eq!(net.nodes_with_extreme_degrees(), None);
    assert_eq!(net.nodes_with_most_and_least_connections(), None);
}

#[test]
fn test_read_data_csv_fixture() {
    let data = b"from,to\n1,2\n1,3\n2,3\n";
    let mut net = AmazonNetwork::new();
    assert_eq!(net.read_data(data), Ok(()));
    assert_eq!(net.node_count(), 3);
    assert_eq!(net.edge_count(), 3);
    assert_eq!(net.out_degree(0), 2);
    assert_eq!(net.out_degree(1), 1);
    assert_eq!(net.out_degree(2), 0);
    assert_eq!(net.nodes_with_extreme_degrees(), Some((0, 2)));
    let dist = net.calculate_degree_distribution();
    assert_eq!(dist.get(&0), Some(&1));
    assert_eq!(dist.get(&1), Some(&1));
    assert_eq!(dist.get(&2), Some(&1));
    let avg = net.calculate_average_degree();
    assert_eq!(avg.num as f64 / avg.den as f64, 1.0);
}

#[test]
fn test_round_trip_same_records_same_report() {
    let data = b"from,to\n10,20\n10,30\n20,30\n20,20\n";
    let mut first = AmazonNetwork::new();
    let mut second = AmazonNetwork::new();
    assert_eq!(first.read_data(data), Ok(()));
    assert_eq!(second.read_data(data), Ok(()));
    assert_eq!(first.node_count(), second.node_count());
    assert_eq!(first.edge_count(), second.edge_count());
    assert_eq!(
        first.calculate_degree_distribution(),
        second.calculate_degree_distribution()
    );
    assert_eq!(
        first.calculate_average_degree(),
        second.calculate_average_degree()
    );
    assert_eq!(
        first.calculate_degree_centrality(),
        second.calculate_degree_centrality()
    );
    assert_eq!(
        first.nodes_with_extreme_degrees(),
        second.nodes_with_extreme_degrees()
    );
    assert_eq!(first.visualize_graph(), second.visualize_graph());
}

#[test]
fn test_malformed_record_halts_ingestion() {
    let data = b"from,to\n1,2\nx,3\n";
    let mut net = AmazonNetwork::new();
    assert_eq!(net.read_data(data), Err(NetworkError::MalformedRecord));
    // nothing was committed: no graph is available for analytics
    assert_eq!(net.node_count(), 0);
    assert_eq!(net.edge_count(), 0);
    assert_eq!(net.nodes_with_extreme_degrees(), None);
}

#[test]
fn test_malformed_record_float_field() {
    let data = b"from,to\n1,2\n3,4.5\n";
    let mut net = AmazonNetwork::new();
    assert_eq!(net.read_data(data), Err(NetworkError::MalformedRecord));
    assert_eq!(net.node_count(), 0);
}

#[test]
fn test_uneven_record_is_malformed() {
    let data = b"from,to\n1,2\n3\n";
    let mut net = AmazonNetwork::new();
    assert_eq!(net.read_data(data), Err(NetworkError::MalformedRecord));
    assert_eq!(net.node_count(), 0);
}

#[test]
fn test_read_data_empty_input() {
    let mut net = AmazonNetwork::new();
    assert_eq!(net.read_data(b""), Ok(()));
    assert_eq!(net.node_count(), 0);
}

#[test]
fn test_visualize_graph_lists_nodes_and_edges() {
    let net = fixture();
    let dot = net.visualize_graph();
    assert!(dot.contains("Node 1"));
    assert!(dot.contains("Node 2"));
    assert!(dot.contains("Node 3"));
    assert!(dot.contains("->"));
}
