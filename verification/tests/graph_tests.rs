use lang::graph::{Classic, Edge};

#[derive(Clone, Debug, PartialEq)]
struct Arrow(u32, u32);

impl Edge for Arrow {
    type V = u32;

    fn from_spec(&self) -> u32 {
        self.0
    }

    fn to_spec(&self) -> u32 {
        self.1
    }

    fn from(&self) -> u32 {
        self.0
    }

    fn to(&self) -> u32 {
        self.1
    }
}

fn sample() -> Classic<u32, Arrow> {
    Classic::new(vec![1, 2, 3], vec![Arrow(1, 2), Arrow(2, 3), Arrow(1, 3), Arrow(3, 1)])
}

#[test]
fn out_vertices_follow_edges() {
    let g = sample();
    assert_eq!(g.out_vertices(&1), vec![2, 3]);
    assert_eq!(g.out_vertices(&2), vec![3]);
    assert_eq!(g.out_vertices(&9), Vec::<u32>::new());
}

#[test]
fn in_vertices_follow_edges_backwards() {
    let g = sample();
    assert_eq!(g.in_vertices(&3), vec![2, 1]);
    assert_eq!(g.in_vertices(&1), vec![3]);
}

#[test]
fn edge_queries_filter_by_endpoints() {
    let g = sample();
    assert_eq!(g.out_edges(&1), vec![Arrow(1, 2), Arrow(1, 3)]);
    assert_eq!(g.in_edges(&3), vec![Arrow(2, 3), Arrow(1, 3)]);
    assert_eq!(g.edges(&1, &3), vec![Arrow(1, 3)]);
    assert_eq!(g.edges(&3, &2), Vec::<Arrow>::new());
    assert_eq!(g.vertices(&Arrow(1, 2)), (1, 2));
}

#[test]
fn growing_the_graph() {
    let mut g = Classic::new(vec![1], Vec::<Arrow>::new());
    g.add_vertex(2);
    g.add_edge(Arrow(1, 2));
    assert_eq!(g.out_vertices(&1), vec![2]);
}
