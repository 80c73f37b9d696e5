use screen_13::math::coord::Coord;
use screen_13::math::rect::Rect;
use screen_13::math::{Area, Extent};
use screen_13::pool::{PoolInfo, PoolInfoBuilder, DEFAULT_RESOURCE_CAPACITY};

#[test]
fn coords() {
    let c = Coord::new(3u32, 4u32);
    assert_eq!((c.x, c.y), (3, 4));
    let signed = c.to_signed();
    assert_eq!((signed.x, signed.y), (3i32, 4i32));
    let z = Coord::<i32>::zero();
    assert_eq!((z.x, z.y), (0, 0));
    let e: Extent = Coord::from((7u32, 8u32));
    assert_eq!((e.x, e.y), (7, 8));
    let s: Coord<i32> = Coord::from((-1i32, 2i32));
    assert_eq!((s.x, s.y), (-1, 2));
}

#[test]
fn rects() {
    let r = Rect::new(1i32, -2i32, 10u32, 20u32);
    assert_eq!((r.pos.x, r.pos.y, r.dims.x, r.dims.y), (1, -2, 10, 20));
    let area: Area = Rect::from(Coord::new(5u32, 6u32));
    assert_eq!((area.pos.x, area.pos.y, area.dims.x, area.dims.y), (0, 0, 5, 6));
    let signed: Rect<u32, i32> = Rect::from(Coord::new(5u32, 6u32));
    assert_eq!((signed.pos.x, signed.dims.y), (0, 6));
    let zero = Rect::<u32, u32>::zero();
    assert_eq!((zero.dims.x, zero.dims.y), (0, 0));
}

#[test]
fn pool_capacities() {
    let info = PoolInfo::default();
    assert_eq!(info.buffer_capacity, DEFAULT_RESOURCE_CAPACITY);
    assert_eq!(info.image_capacity, 16);
    let info = PoolInfo::with_capacity(4);
    assert_eq!((info.accel_struct_capacity, info.buffer_capacity, info.image_capacity), (4, 4, 4));
    assert_eq!(PoolInfo::from(9).image_capacity, 9);
    let built = PoolInfoBuilder::default().buffer_capacity(2).image_capacity(3).build();
    assert_eq!((built.accel_struct_capacity, built.buffer_capacity, built.image_capacity), (16, 2, 3));
    let converted = PoolInfo::from(PoolInfoBuilder::default().accel_struct_capacity(1));
    assert_eq!(converted.accel_struct_capacity, 1);
    assert_eq!(converted.buffer_capacity, 16);
}
