use polytope::Polytope;

#[derive(Debug)]
struct MyVertex {
    coords: Vec<f64>,
}

impl Default for MyVertex {
    fn default() -> Self {
        MyVertex { coords: Vec::new() }
    }
}

impl MyVertex {
    fn promote(&self, h: f64) -> Self {
        let mut coords = self.coords.clone();
        coords.push(h);
        MyVertex { coords }
    }
}

#[test]
fn element_polytope_new() {
    let p = Polytope::<MyVertex>::new(Default::default());
    assert_eq!(p.vertices().len(), 1);
    assert_eq!(p.dimensions(), 0);
}

#[test]
fn element_extrude_point() {
    let p = Polytope::<MyVertex>::new(Default::default());
    let q = p.extrude(|v| v.promote(-1.0), |v| v.promote(1.0));
    assert_eq!(q.vertices().len(), 2);
    assert!(q.vertices()[0].coords == vec![-1.0]);
    assert!(q.vertices()[1].coords == vec![1.0]);
    assert_eq!(q.dimensions(), 1);
    assert!(q.elements(0) == &[vec![0, 1]]);
}

#[test]
fn element_extrude_line() {
    let p = Polytope::<MyVertex>::new(Default::default());
    let p = p.extrude(|v| v.promote(-1.0), |v| v.promote(1.0));
    let q = p.extrude(|v| v.promote(-2.0), |v| v.promote(2.0));
    assert_eq!(q.vertices().len(), 4);
    assert!(q.vertices()[0].coords == vec![-1.0, -2.0]);
    assert!(q.vertices()[1].coords == vec![-1.0, 2.0]);
    assert!(q.vertices()[2].coords == vec![1.0, -2.0]);
    assert!(q.vertices()[3].coords == vec![1.0, 2.0]);
    assert_eq!(q.dimensions(), 2);
    assert!(q.elements(0) == &[vec![0, 2], vec![1, 3], vec![0, 1], vec![2, 3]]);
    assert!(q.elements(1) == &[vec![2, 3, 0, 1]]);
}

#[test]
fn element_cone_line() {
    let p = Polytope::<MyVertex>::new(Default::default());
    let p = p.extrude(|v| v.promote(-1.0), |v| v.promote(1.0));
    let q = p.cone(
        MyVertex { coords: vec![0.0, 0.0] },
        |v| v.promote(-2.0),
        |v| v.promote(2.0),
    );
    assert_eq!(q.vertices().len(), 5);
    assert!(q.vertices()[0].coords == vec![-1.0, -2.0]);
    assert!(q.vertices()[1].coords == vec![-1.0, 2.0]);
    assert!(q.vertices()[2].coords == vec![1.0, -2.0]);
    assert!(q.vertices()[3].coords == vec![1.0, 2.0]);
    assert!(q.vertices()[4].coords == vec![0.0, 0.0]);
    assert_eq!(q.dimensions(), 2);
    assert!(
        q.elements(0)
            == &[
                vec![0, 2],
                vec![1, 3],
                vec![0, 4],
                vec![1, 4],
                vec![2, 4],
                vec![3, 4],
            ]
    );
    assert!(q.elements(1) == &[vec![2, 4, 0], vec![3, 5, 1]]);
}

#[test]
fn element_extrude_cone_line() {
    let p = Polytope::<MyVertex>::new(Default::default());
    let p = p.extrude(|v| v.promote(-1.0), |v| v.promote(1.0));
    let p = p.cone(
        MyVertex { coords: vec![0.0, 0.0] },
        |v| v.promote(-2.0),
        |v| v.promote(2.0),
    );
    let q = p.extrude(|v| v.promote(-3.0), |v| v.promote(3.0));
    assert_eq!(q.vertices().len(), 10);
    assert!(q.vertices()[0].coords == vec![-1.0, -2.0, -3.0]);
    assert!(q.vertices()[1].coords == vec![-1.0, -2.0, 3.0]);
    assert!(q.vertices()[2].coords == vec![-1.0, 2.0, -3.0]);
    assert!(q.vertices()[3].coords == vec![-1.0, 2.0, 3.0]);
    assert!(q.vertices()[4].coords == vec![1.0, -2.0, -3.0]);
    assert!(q.vertices()[5].coords == vec![1.0, -2.0, 3.0]);
    assert!(q.vertices()[6].coords == vec![1.0, 2.0, -3.0]);
    assert!(q.vertices()[7].coords == vec![1.0, 2.0, 3.0]);
    assert!(q.vertices()[8].coords == vec![0.0, 0.0, -3.0]);
    assert!(q.vertices()[9].coords == vec![0.0, 0.0, 3.0]);
    assert_eq!(q.dimensions(), 3);
    assert!(
        q.elements(0)
            == &[
                vec![0, 4],
                vec![1, 5],
                vec![2, 6],
                vec![3, 7],
                vec![0, 8],
                vec![1, 9],
                vec![2, 8],
                vec![3, 9],
                vec![4, 8],
                vec![5, 9],
                vec![6, 8],
                vec![7, 9],
                vec![0, 1],
                vec![2, 3],
                vec![4, 5],
                vec![6, 7],
                vec![8, 9],
            ]
    );
    assert!(
        q.elements(1)
            == &[
                vec![4, 8, 0],
                vec![5, 9, 1],
                vec![6, 10, 2],
                vec![7, 11, 3],
                vec![12, 14, 0, 1],
                vec![13, 15, 2, 3],
                vec![12, 16, 4, 5],
                vec![13, 16, 6, 7],
                vec![14, 16, 8, 9],
                vec![15, 16, 10, 11],
            ]
    );
    assert!(q.elements(2) == &[vec![6, 8, 4, 0, 1], vec![7, 9, 5, 2, 3]]);
}
