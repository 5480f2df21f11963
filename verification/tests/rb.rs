use rusteron::common::AeronCError;
use rusteron::rb::{
    aeron_rb_read_action_stct, aeron_rb_write_result_stct, AeronMpscRb, AeronRingBufferControlledHandlerCallback,
    AeronRingBufferHandlerCallback, AeronSpscRb, RingBuffer,
};

#[test]
pub fn spsc_normal() -> Result<(), AeronCError> {
    let mut rb = AeronSpscRb::new_with_capacity(1024 * 1024, 1024)?;

    for i in 0..100 {
        // msg_type_id must >0
        let idx = rb.try_claim(i + 1, 4);
        assert!(idx >= 0);
        let slot = rb.buffer_at_mut(idx as usize, 4);
        slot[0] = i as u8;
        rb.commit(idx)?;
    }

    struct Reader {}
    impl AeronRingBufferHandlerCallback for Reader {
        fn handle_aeron_rb_handler(&mut self, msg_type_id: i32, buffer: &[u8]) -> () {
            assert_eq!(buffer[0], (msg_type_id - 1) as u8)
        }
    }
    let mut handler = Reader {};
    for _ in 0..10 {
        let read = rb.read_msgs(&mut handler, 10);
        assert_eq!(10, read);
    }

    assert_eq!(0, rb.read(Some(&mut handler), 10));

    Ok(())
}

#[test]
pub fn spsc_control() -> Result<(), AeronCError> {
    let buff = vec![0u8; 1024 * 1024];
    let mut rb = AeronSpscRb::from_vec(buff, 1024)?;

    for i in 0..100 {
        // msg_type_id must >0
        let idx = rb.try_claim(i + 1, 4);
        assert!(idx >= 0);
        let slot = rb.buffer_at_mut(idx as usize, 4);
        slot[0] = i as u8;
        rb.commit(idx)?;
    }

    struct Reader {}
    impl AeronRingBufferControlledHandlerCallback for Reader {
        fn handle_aeron_controlled_rb_handler(&mut self, msg_type_id: i32, buffer: &[u8]) -> aeron_rb_read_action_stct {
            assert_eq!(buffer[0], (msg_type_id - 1) as u8);
            aeron_rb_read_action_stct::AERON_RB_COMMIT
        }
    }
    let mut handler = Reader {};
    for _ in 0..10 {
        let read = rb.controlled_read_msgs(&mut handler, 10);
        assert_eq!(10, read);
    }

    assert_eq!(0, rb.controlled_read_msgs(&mut handler, 10));

    Ok(())
}

#[test]
pub fn mpsc_normal() -> Result<(), AeronCError> {
    let mut rb = AeronMpscRb::new_with_capacity(1024 * 1024, 1024)?;

    for i in 0..100 {
        // msg_type_id must >0
        let idx = rb.try_claim(i + 1, 4);
        assert!(idx >= 0);
        let slot = rb.buffer_at_mut(idx as usize, 4);
        slot[0] = i as u8;
        rb.commit(idx)?;
    }

    struct Reader {}
    impl AeronRingBufferHandlerCallback for Reader {
        fn handle_aeron_rb_handler(&mut self, msg_type_id: i32, buffer: &[u8]) -> () {
            assert_eq!(buffer[0], (msg_type_id - 1) as u8)
        }
    }
    let mut handler = Reader {};
    for _ in 0..10 {
        let read = rb.read_msgs(&mut handler, 10);
        assert_eq!(10, read);
    }

    assert_eq!(0, rb.read(Some(&mut handler), 10));

    Ok(())
}

#[test]
pub fn mpsc_control() -> Result<(), AeronCError> {
    let mut rb = AeronMpscRb::new_with_capacity(1024 * 1024, 1024)?;

    for i in 0..100 {
        // msg_type_id must >0
        let idx = rb.try_claim(i + 1, 4);
        assert!(idx >= 0);
        let slot = rb.buffer_at_mut(idx as usize, 4);
        slot[0] = i as u8;
        rb.commit(idx)?;
    }

    struct Reader {}
    impl AeronRingBufferControlledHandlerCallback for Reader {
        fn handle_aeron_controlled_rb_handler(&mut self, msg_type_id: i32, buffer: &[u8]) -> aeron_rb_read_action_stct {
            assert_eq!(buffer[0], (msg_type_id - 1) as u8);
            aeron_rb_read_action_stct::AERON_RB_COMMIT
        }
    }
    let mut handler = Reader {};
    for _ in 0..10 {
        let read = rb.controlled_read_msgs(&mut handler, 10);
        assert_eq!(10, read);
    }

    assert_eq!(0, rb.controlled_read_msgs(&mut handler, 10));

    Ok(())
}

struct Collect(Vec<(i32, Vec<u8>)>);

impl AeronRingBufferHandlerCallback for Collect {
    fn handle_aeron_rb_handler(&mut self, msg_type_id: i32, buffer: &[u8]) {
        self.0.push((msg_type_id, buffer.to_vec()));
    }
}

struct Script(Vec<aeron_rb_read_action_stct>, Vec<i32>);

impl AeronRingBufferControlledHandlerCallback for Script {
    fn handle_aeron_controlled_rb_handler(&mut self, msg_type_id: i32, _buffer: &[u8]) -> aeron_rb_read_action_stct {
        self.1.push(msg_type_id);
        self.0.remove(0)
    }
}

#[test]
fn a_ring_buffer_needs_a_sound_capacity() {
    assert_eq!(RingBuffer::new_with_capacity(0, 0).err(), Some(AeronCError::from_code(-1)));
    assert_eq!(RingBuffer::new_with_capacity(12, 1).err(), Some(AeronCError::from_code(-1)));
    assert_eq!(RingBuffer::new_with_capacity(64, 57).err(), Some(AeronCError::from_code(-1)));
    assert_eq!(RingBuffer::new_with_capacity(0x4000_0008, 8).err(), Some(AeronCError::from_code(-1)));
    assert_eq!(RingBuffer::from_vec(vec![0; 20], 8).err(), Some(AeronCError::from_code(-1)));
    assert!(RingBuffer::from_vec(vec![7; 24], 16).is_ok());
    let rb = RingBuffer::new_with_capacity(64, 56).unwrap();
    assert_eq!((rb.capacity(), rb.max_message_length(), rb.size()), (64, 56, 0));
}

#[test]
fn claims_are_aligned_and_wrap_behind_padding() {
    let mut rb = RingBuffer::new_with_capacity(64, 32).unwrap();
    assert_eq!(rb.try_claim(0, 4), -2);
    assert_eq!(rb.try_claim(1, 33), -2);
    // 8 bytes of header and 9 of message take 24
    assert_eq!(rb.try_claim(1, 9), 8);
    assert_eq!(rb.try_claim(2, 16), 32);
    assert_eq!(rb.size(), 48);
    // 16 bytes are free, a record of 24 does not fit
    assert_eq!(rb.try_claim(3, 9), -1);
    assert_eq!(rb.commit(8), Ok(0));
    assert_eq!(rb.commit(8), Err(AeronCError::from_code(-1)));
    assert_eq!(rb.commit(9), Err(AeronCError::from_code(-1)));
    assert_eq!(rb.abort(32), Ok(0));
    let mut seen = Collect(vec![]);
    assert_eq!(rb.read_msgs(&mut seen, 10), 1);
    assert_eq!(seen.0, vec![(1, vec![0; 9])]);
    assert_eq!(rb.size(), 0);
    // the tail stands at 48: a record of 24 wraps, 16 bytes of padding before it
    assert_eq!(rb.try_claim(4, 9), 8);
    assert_eq!(rb.size(), 40);
    assert_eq!(rb.try_claim(5, 16), 32);
    assert_eq!(rb.size(), 64);
    assert_eq!(rb.try_claim(6, 0), -1);
}

#[test]
fn a_read_stops_before_an_open_claim() {
    let mut rb = RingBuffer::new_with_capacity(1024, 64).unwrap();
    assert_eq!(rb.write(7, b"first"), aeron_rb_write_result_stct::AERON_RB_SUCCESS);
    let open = rb.try_claim(8, 3);
    assert_eq!(rb.write(9, b"third"), aeron_rb_write_result_stct::AERON_RB_SUCCESS);
    assert_eq!(rb.write(0, b"x"), aeron_rb_write_result_stct::AERON_RB_ERROR);
    assert_eq!(aeron_rb_write_result_stct::AERON_RB_FULL.code(), -1);
    let mut seen = Collect(vec![]);
    assert_eq!(rb.read_msgs(&mut seen, 0), 0);
    assert_eq!(rb.read_msgs(&mut seen, 5), 1);
    assert_eq!(rb.read_msgs(&mut seen, 5), 0);
    assert_eq!(rb.read::<Collect>(None, 5), 0);
    rb.buffer_at_mut(open as usize, 3).copy_from_slice(b"two");
    assert_eq!(rb.buffer_at(open as usize, 3), b"two");
    rb.commit(open).unwrap();
    assert_eq!(rb.read_msgs(&mut seen, 1), 1);
    assert_eq!(rb.read_msgs(&mut seen, 5), 1);
    assert_eq!(seen.0, vec![(7, b"first".to_vec()), (8, b"two".to_vec()), (9, b"third".to_vec())]);
}

#[test]
fn a_controlled_read_follows_its_reader() {
    let mut rb = RingBuffer::new_with_capacity(1024, 64).unwrap();
    for id in 1..=6 {
        assert_eq!(rb.write(id, &[id as u8]), aeron_rb_write_result_stct::AERON_RB_SUCCESS);
    }
    let mut script = Script(
        vec![
            aeron_rb_read_action_stct::AERON_RB_CONTINUE,
            aeron_rb_read_action_stct::AERON_RB_COMMIT,
            aeron_rb_read_action_stct::AERON_RB_BREAK,
            aeron_rb_read_action_stct::AERON_RB_ABORT,
            aeron_rb_read_action_stct::AERON_RB_CONTINUE,
        ],
        vec![],
    );
    assert_eq!(rb.controlled_read_msgs(&mut script, 10), 3);
    assert_eq!(rb.controlled_read_msgs(&mut script, 10), 0);
    assert_eq!(rb.controlled_read_msgs(&mut script, 1), 1);
    assert_eq!(script.1, vec![1, 2, 3, 4, 4]);
    assert_eq!(rb.size(), 2 * 16);
}
