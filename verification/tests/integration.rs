use conservation_spectral_core::graph::TensionGraph;

/// Build a simple 5-node chord transition graph:
/// C -> G -> Am -> F -> Dm -> (back to C)
/// With weighted transitions between chords.
fn build_chord_graph() -> TensionGraph<String, f64> {
    let mut g: TensionGraph<String, f64> = TensionGraph::new();

    // Add vertices: C, G, Am, F, Dm
    g.add_vertex("C".to_string());
    g.add_vertex("G".to_string());
    g.add_vertex("Am".to_string());
    g.add_vertex("F".to_string());
    g.add_vertex("Dm".to_string());

    // Add edges: transitions between chords
    g.add_edge("C".to_string(), "G".to_string(), 0.6);
    g.add_edge("C".to_string(), "Am".to_string(), 0.4);
    g.add_edge("G".to_string(), "Am".to_string(), 0.7);
    g.add_edge("G".to_string(), "C".to_string(), 0.3);
    g.add_edge("Am".to_string(), "F".to_string(), 0.8);
    g.add_edge("Am".to_string(), "Dm".to_string(), 0.2);
    g.add_edge("F".to_string(), "C".to_string(), 0.5);
    g.add_edge("F".to_string(), "G".to_string(), 0.5);
    g.add_edge("Dm".to_string(), "C".to_string(), 0.9);
    g.add_edge("Dm".to_string(), "Am".to_string(), 0.1);

    g
}

#[test]
fn test_build_graph() {
    let g = build_chord_graph();
    assert_eq!(g.vertex_count(), 5);
    assert_eq!(g.edge_count(), 10);
}
