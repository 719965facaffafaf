use fat32::allocator::{align_up, get_bucket, AllocErr, Allocator, BINS, MAX_BLOCK};
use fat32::builder::Builder;
use fat32::duration::Duration;

// The builder.

#[test]
fn empty_builder_is_empty_text() {
    let empty = Builder::default().to_string();
    assert_eq!(empty, "");
}

#[test]
fn builder_with_a_string() {
    let just_str = Builder::default().string("hi").to_string();
    assert_eq!(just_str, "hi");
    let c = Builder::default().string(&"heap!".to_owned()).to_string();
    assert_eq!(c, "heap!");
}

#[test]
fn builder_with_a_number() {
    let just_num = Builder::default().number(254).to_string();
    assert_eq!(just_num, "254");
    assert_eq!(Builder::default().number(0).to_string(), "0");
    assert_eq!(Builder::default().number(usize::MAX).to_string(), usize::MAX.to_string());
}

#[test]
fn builder_with_both() {
    let a = Builder::default().string("hello, world!").number(200).to_string();
    assert_eq!(a, "hello, world! 200");
    let b = Builder::default().string("hello, world!").number(200).string("bye now!").to_string();
    assert_eq!(b, "bye now! 200");
    let c = Builder::default().number(1).number(2).string("").to_string();
    assert_eq!(c, " 2");
}

// Durations.

#[test]
fn durations_in_milliseconds() {
    assert_eq!(Duration::MilliSeconds(420).to_ms(), 420);
    assert_eq!(Duration::Seconds(43).to_ms(), 43_000);
    assert_eq!(Duration::Minutes(7).to_ms(), 420_000);
    assert_eq!(Duration::Seconds(u32::MAX).to_ms(), 4_294_967_295_000);
    assert_eq!(Duration::Minutes(u16::MAX).to_ms(), 3_932_100_000);
    assert_eq!(Duration::MilliSeconds(u64::MAX).to_ms(), u64::MAX);
}

#[test]
fn equal_spans_are_equal() {
    assert_eq!(Duration::Seconds(120), Duration::Minutes(2));
    assert_eq!(Duration::Seconds(420), Duration::Minutes(7));
    assert_eq!(Duration::MilliSeconds(420000), Duration::Minutes(7));
    assert_eq!(Duration::MilliSeconds(43000), Duration::Seconds(43));
    assert_ne!(Duration::MilliSeconds(43001), Duration::Seconds(43));
    assert_ne!(Duration::Seconds(59), Duration::Minutes(1));
}

// The allocator.

#[test]
fn buckets_by_size() {
    assert_eq!(get_bucket(0), (0, 8));
    assert_eq!(get_bucket(1), (0, 8));
    assert_eq!(get_bucket(8), (0, 8));
    assert_eq!(get_bucket(9), (1, 16));
    assert_eq!(get_bucket(16), (1, 16));
    assert_eq!(get_bucket(17), (2, 32));
    assert_eq!(get_bucket(1000), (7, 1024));
    assert_eq!(get_bucket(MAX_BLOCK - 1), (17, MAX_BLOCK));
    assert_eq!(get_bucket(MAX_BLOCK), (BINS - 1, 0x10_0000));
}

#[test]
fn buckets_of_sizes_beyond_the_bins() {
    assert_eq!(get_bucket(MAX_BLOCK + 1), (18, 0x20_0000));
    assert_eq!(get_bucket(0x4000_0000), (27, 0x4000_0000));
    assert_eq!(get_bucket(0x4000_0001), (28, 0x8000_0000));
    let top = usize::MAX / 2 + 1;
    let last = (usize::BITS - 4) as usize;
    assert_eq!(get_bucket(top), (last, top));
    assert_eq!(get_bucket(top - 1), (last, top));
    assert_eq!(get_bucket(top / 2), (last - 1, top / 2));
    assert_eq!(get_bucket(top / 2 + 1), (last, top));
}

#[test]
fn addresses_are_rounded_up() {
    assert_eq!(align_up(0, 8), Some(0));
    assert_eq!(align_up(1, 8), Some(8));
    assert_eq!(align_up(8, 8), Some(8));
    assert_eq!(align_up(9, 8), Some(16));
    assert_eq!(align_up(100, 64), Some(128));
    assert_eq!(align_up(100, 1), Some(100));
    assert_eq!(align_up(10, 3), Some(12));
    assert_eq!(align_up(usize::MAX, 2), None);
    assert_eq!(align_up(usize::MAX, 1), Some(usize::MAX));
    assert_eq!(align_up(usize::MAX - 7, 8), Some(usize::MAX - 7));
}

#[test]
fn fresh_blocks_are_cut_from_the_region() {
    let mut allocator = Allocator::new(0x1001, 0x2000);
    assert_eq!(allocator.current(), 0x1001);
    assert_eq!(allocator.allocate(10, 4), Ok(0x1004));
    assert_eq!(allocator.current(), 0x1014);
    assert_eq!(allocator.allocate(1, 1), Ok(0x1014));
    assert_eq!(allocator.current(), 0x101C);
    assert_eq!(allocator.allocate(100, 256), Ok(0x1100));
    assert_eq!(allocator.current(), 0x1180);
}

#[test]
fn region_runs_out() {
    let mut allocator = Allocator::new(0x1000, 0x1040);
    assert_eq!(allocator.allocate(32, 8), Ok(0x1000));
    assert_eq!(allocator.allocate(32, 8), Err(AllocErr));
    assert_eq!(allocator.current(), 0x1020);
    assert_eq!(allocator.allocate(16, 8), Ok(0x1020));
    assert_eq!(allocator.allocate(8, 8), Ok(0x1030));
    assert_eq!(allocator.allocate(8, 8), Err(AllocErr));
    assert_eq!(allocator.allocate(1, 1), Err(AllocErr));
    let mut high = Allocator::new(usize::MAX - 4, usize::MAX);
    assert_eq!(high.allocate(8, 8), Err(AllocErr));
    assert_eq!(high.allocate(8, 1), Err(AllocErr));
}

#[test]
fn unsupported_requests_are_refused() {
    let mut allocator = Allocator::new(0, usize::MAX);
    assert_eq!(allocator.allocate(MAX_BLOCK + 1, 8), Err(AllocErr));
    assert_eq!(allocator.allocate(usize::MAX, 8), Err(AllocErr));
    assert_eq!(allocator.allocate(8, 0), Err(AllocErr));
    assert_eq!(allocator.current(), 0);
    assert_eq!(allocator.allocate(MAX_BLOCK, 8), Ok(0));
    assert_eq!(allocator.current(), MAX_BLOCK);
}

#[test]
fn freed_blocks_are_handed_out_again() {
    let mut allocator = Allocator::new(0x1000, 0x10000);
    let a = allocator.allocate(24, 8).unwrap();
    let b = allocator.allocate(30, 8).unwrap();
    let c = allocator.allocate(40, 8).unwrap();
    assert_eq!((a, b, c), (0x1000, 0x1020, 0x1040));
    allocator.dealloc(a, 24);
    allocator.dealloc(b, 30);
    let before = allocator.current();
    assert_eq!(allocator.allocate(17, 8), Ok(b));
    assert_eq!(allocator.allocate(32, 8), Ok(a));
    assert_eq!(allocator.current(), before);
    assert_eq!(allocator.allocate(32, 8), Ok(before));
    allocator.dealloc(c, 40);
    assert_eq!(allocator.allocate(20, 8), Ok(0x10A0));
    assert_eq!(allocator.allocate(64, 8), Ok(c));
}

#[test]
fn freed_block_must_be_aligned_to_be_taken() {
    let mut allocator = Allocator::new(0x1000, 0x10000);
    let a = allocator.allocate(8, 8).unwrap();
    let b = allocator.allocate(8, 8).unwrap();
    let c = allocator.allocate(8, 8).unwrap();
    assert_eq!((a, b, c), (0x1000, 0x1008, 0x1010));
    allocator.dealloc(a, 8);
    allocator.dealloc(b, 8);
    allocator.dealloc(c, 8);
    assert_eq!(allocator.allocate(8, 0x1000), Ok(a));
    assert_eq!(allocator.allocate(8, 16), Ok(c));
    assert_eq!(allocator.allocate(8, 16), Ok(0x1020));
    assert_eq!(allocator.allocate(8, 8), Ok(b));
}
