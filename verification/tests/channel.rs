use bytes::BytesMut;
use cetka::buffer::{new_buffer_pool, BUFFER_CAPACITY, POOL_SIZE};
use cetka::channel::{PerCpuChannel, DEFAULT_CAPACITY};

fn numbered(n: u32) -> [u8; 4] {
    n.to_be_bytes()
}

#[test]
fn new_channel_is_empty() {
    let channel = PerCpuChannel::new(3);
    assert_eq!(channel.capacity(), 3);
    assert_eq!(channel.len(), 0);
    assert!(channel.is_empty());
    assert_eq!(channel.dropped(), 0);
}

#[test]
fn default_capacity_is_1024() {
    assert_eq!(DEFAULT_CAPACITY, 1024);
}

#[test]
fn pool_has_ten_empty_buffers() {
    assert_eq!(POOL_SIZE, 10);
    assert_eq!(BUFFER_CAPACITY, 1024);
    let pool = new_buffer_pool();
    assert_eq!(pool.len(), 10);
    for buffer in pool.iter() {
        assert_eq!(buffer.len(), 0);
        assert!(buffer.capacity() >= 1024);
    }
}

#[test]
fn records_come_out_in_push_order() {
    let mut channel = PerCpuChannel::new(8);
    for n in 0..5 {
        assert!(channel.push(numbered(n)));
    }
    assert_eq!(channel.len(), 5);
    assert!(!channel.is_empty());
    let mut pool = new_buffer_pool();
    let read = channel.read_events(&mut pool);
    assert_eq!(read, 5);
    for n in 0..5 {
        assert_eq!(&pool[n as usize][..], &numbered(n)[..]);
    }
    for buffer in pool[5..].iter() {
        assert_eq!(buffer.len(), 0);
    }
    assert!(channel.is_empty());
    assert_eq!(channel.dropped(), 0);
}

#[test]
fn full_channel_drops_the_newest() {
    let mut channel = PerCpuChannel::new(3);
    assert!(channel.push(numbered(1)));
    assert!(channel.push(numbered(2)));
    assert!(channel.push(numbered(3)));
    assert!(!channel.push(numbered(4)));
    assert!(!channel.push(numbered(5)));
    assert_eq!(channel.len(), 3);
    assert_eq!(channel.dropped(), 2);
    let mut pool = new_buffer_pool();
    assert_eq!(channel.read_events(&mut pool), 3);
    assert_eq!(&pool[0][..], &numbered(1)[..]);
    assert_eq!(&pool[1][..], &numbered(2)[..]);
    assert_eq!(&pool[2][..], &numbered(3)[..]);
}

#[test]
fn overflow_past_the_default_capacity() {
    let mut channel = PerCpuChannel::new(DEFAULT_CAPACITY);
    for n in 0..1030u32 {
        assert_eq!(channel.push(numbered(n)), n < 1024);
    }
    assert_eq!(channel.len(), 1024);
    assert_eq!(channel.dropped(), 6);
    let mut pool = new_buffer_pool();
    let mut expected: u32 = 0;
    loop {
        let read = channel.read_events(&mut pool);
        if read == 0 {
            break;
        }
        for buffer in pool[..read].iter() {
            assert_eq!(&buffer[..], &numbered(expected)[..]);
            expected += 1;
        }
    }
    assert_eq!(expected, 1024);
}

#[test]
fn overflow_is_reproducible() {
    let mut first = PerCpuChannel::new(4);
    let mut second = PerCpuChannel::new(4);
    for n in 0..9 {
        assert_eq!(first.push(numbered(n)), second.push(numbered(n)));
    }
    assert_eq!(first.len(), second.len());
    assert_eq!(first.dropped(), second.dropped());
    let mut pool_a = new_buffer_pool();
    let mut pool_b = new_buffer_pool();
    assert_eq!(first.read_events(&mut pool_a), 4);
    assert_eq!(second.read_events(&mut pool_b), 4);
    for i in 0..4 {
        assert_eq!(&pool_a[i][..], &pool_b[i][..]);
        assert_eq!(&pool_a[i][..], &numbered(i as u32)[..]);
    }
}

#[test]
fn room_returns_after_a_read() {
    let mut channel = PerCpuChannel::new(2);
    assert!(channel.push(numbered(1)));
    assert!(channel.push(numbered(2)));
    assert!(!channel.push(numbered(3)));
    let mut one: Vec<BytesMut> = vec![BytesMut::new()];
    assert_eq!(channel.read_events(&mut one), 1);
    assert_eq!(&one[0][..], &numbered(1)[..]);
    assert!(channel.push(numbered(4)));
    assert_eq!(channel.len(), 2);
    let mut pool = new_buffer_pool();
    assert_eq!(channel.read_events(&mut pool), 2);
    assert_eq!(&pool[0][..], &numbered(2)[..]);
    assert_eq!(&pool[1][..], &numbered(4)[..]);
    assert_eq!(channel.dropped(), 1);
}

#[test]
fn channel_without_room_drops_everything() {
    let mut channel = PerCpuChannel::new(0);
    assert!(!channel.push(numbered(1)));
    assert!(!channel.push(numbered(2)));
    assert_eq!(channel.len(), 0);
    assert_eq!(channel.dropped(), 2);
    let mut pool = new_buffer_pool();
    assert_eq!(channel.read_events(&mut pool), 0);
}

#[test]
fn read_takes_no_more_than_there_are_buffers() {
    let mut channel = PerCpuChannel::new(32);
    for n in 0..25 {
        assert!(channel.push(numbered(n)));
    }
    let mut pool = new_buffer_pool();
    assert_eq!(channel.read_events(&mut pool), 10);
    assert_eq!(channel.len(), 15);
    for n in 0..10 {
        assert_eq!(&pool[n as usize][..], &numbered(n)[..]);
    }
    assert_eq!(channel.read_events(&mut pool), 10);
    for n in 0..10 {
        assert_eq!(&pool[n as usize][..], &numbered(10 + n)[..]);
    }
    assert_eq!(channel.read_events(&mut pool), 5);
    for n in 0..5 {
        assert_eq!(&pool[n as usize][..], &numbered(20 + n)[..]);
    }
    assert_eq!(channel.read_events(&mut pool), 0);
}

#[test]
fn read_without_buffers_takes_nothing() {
    let mut channel = PerCpuChannel::new(4);
    assert!(channel.push(numbered(7)));
    let mut none: Vec<BytesMut> = Vec::new();
    assert_eq!(channel.read_events(&mut none), 0);
    assert_eq!(channel.len(), 1);
}

#[test]
fn read_replaces_what_a_buffer_held() {
    let mut channel = PerCpuChannel::new(4);
    assert!(channel.push([9, 8, 7, 6]));
    let mut buffers = vec![
        BytesMut::from(&b"previous contents"[..]),
        BytesMut::from(&b"untouched"[..]),
    ];
    assert_eq!(channel.read_events(&mut buffers), 1);
    assert_eq!(&buffers[0][..], &[9u8, 8, 7, 6][..]);
    assert_eq!(&buffers[1][..], &b"untouched"[..]);
}

#[test]
fn read_of_an_empty_channel_touches_nothing() {
    let mut channel = PerCpuChannel::new(4);
    let mut buffers = vec![BytesMut::from(&b"kept"[..])];
    assert_eq!(channel.read_events(&mut buffers), 0);
    assert_eq!(&buffers[0][..], &b"kept"[..]);
}
