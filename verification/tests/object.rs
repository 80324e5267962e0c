use chunked_ops::chunked_array::ObjectChunked;
use chunked_ops::datatypes::{DataType, PolarsObject};
use chunked_ops::ops::{ChunkExpandAtIndex, TakeRandom};
use vstd::view::DeepView;

#[derive(Debug, PartialEq, Clone, Default)]
struct Point {
    x: i64,
    y: i64,
}

impl DeepView for Point {
    type V = (i64, i64);

    fn deep_view(&self) -> (i64, i64) {
        (self.x, self.y)
    }
}

impl PolarsObject for Point {
    fn clone_object(&self) -> Point {
        self.clone()
    }

    fn eq_object(&self, other: &Point) -> bool {
        self == other
    }
}

#[test]
fn new_from_index_object() {
    let ca = ObjectChunked::<Point>::from_options(
        "p",
        vec![Some(Point { x: 1, y: 2 }), None],
    );
    let out = ca.new_from_index(0, 2);
    assert_eq!(out.len(), 2);
    assert_eq!(out.get(1), Some(Point { x: 1, y: 2 }));
    assert!(out.dtype().same_as(&DataType::Object));
    let nulls = ca.new_from_index(1, 3);
    assert_eq!(nulls.to_vec(), vec![None, None, None]);
}

#[test]
fn object_unchecked_read_under_null_gives_default() {
    let ca = ObjectChunked::<Point>::from_options("p", vec![Some(Point { x: 3, y: 4 }), None]);
    assert_eq!(ca.get_unchecked(0), Some(Point { x: 3, y: 4 }));
    assert_eq!(ca.get_unchecked(1), Some(Point::default()));
}
