use xiangqi_rim::board::arbiter::Arbiter;
use xiangqi_rim::board::fen::{Fault, Parser, Serializer, Validator};
use xiangqi_rim::board::moves::Move;
use xiangqi_rim::book::loader::Fault as BookFault;
use xiangqi_rim::book::opening::entries;
use xiangqi_rim::book::{Entry, Loader};
use xiangqi_rim::cqrs::{Bus, Command, Item, Kind, Queue};
use xiangqi_rim::eval::nnue_avx2::Accumulator;
use xiangqi_rim::gpu::{
    Accelerable, Aggregatable, Aggregator, Backend, Batch, Batchable, Buffer, Device, Dispatchable,
    Evaluable, Evaluator, Guard, Gym, Kernel, Queryable, RingBuffer, Sample, Sampleable, Status,
    Validatable,
};

fn host() -> Device {
    Device::new(Backend::Cpu, None, false)
}

#[test]
fn buffer_first_in_first_out() {
    let mut buffer = Buffer::allocate(64, false, false).unwrap();
    assert!(buffer.push(&[1, 2, 3]).is_ok());
    assert!(buffer.push(&[9]).is_ok());
    let mut target = [0u8; 5];
    assert!(buffer.pull(&mut target).is_ok());
    assert_eq!(target, [1, 2, 3, 0, 0]);
    assert!(buffer.pull(&mut target).is_ok());
    assert_eq!(target, [9, 2, 3, 0, 0]);
    assert_eq!(buffer.pull(&mut target), Err(Status::Ready));
    assert_eq!(buffer.head(), 12);
    assert_eq!(buffer.commit(), 12);
}

#[test]
fn buffer_wraps_around() {
    let mut buffer = Buffer::allocate(64, false, false).unwrap();
    let mut target = [0u8; 40];
    for round in 0..10u8 {
        let message = [round; 36];
        assert!(buffer.push(&message).is_ok());
        assert!(buffer.pull(&mut target).is_ok());
        assert_eq!(&target[..36], &message[..]);
    }
    assert_eq!(buffer.head(), 400);
}

#[test]
fn buffer_errors() {
    let mut buffer = Buffer::allocate(64, false, false).unwrap();
    assert_eq!(buffer.push(&[]), Err(Status::Fault));
    assert_eq!(buffer.push(&[0u8; 61]), Err(Status::Full));
    assert!(buffer.push(&[0u8; 60]).is_ok());
    assert_eq!(buffer.push(&[1]), Err(Status::Full));
    let mut small = [0u8; 10];
    assert_eq!(buffer.pull(&mut small), Err(Status::Fault));
    let mut none: [u8; 0] = [];
    assert_eq!(buffer.pull(&mut none), Err(Status::Fault));
    buffer.free();
    assert_eq!(buffer.capacity(), 0);
    assert_eq!(buffer.push(&[1]), Err(Status::Fault));
    assert_eq!(buffer.write(&[1]), Err(Status::Fault));
}

#[test]
fn buffer_write_read_clear() {
    let mut buffer = Buffer::allocate(8, true, true).unwrap();
    assert!(buffer.device() && buffer.shared() && buffer.aligned());
    assert_eq!(buffer.bytes(), 8);
    assert!(buffer.write(&[5, 6, 7]).is_ok());
    assert_eq!(buffer.bytes(), 3);
    let mut target = [0u8; 4];
    assert!(buffer.read(&mut target).is_ok());
    assert_eq!(target, [5, 6, 7, 0]);
    let mut short = [0u8; 2];
    assert_eq!(buffer.read(&mut short), Err(Status::Fault));
    assert_eq!(buffer.write(&[0u8; 65]), Err(Status::Fault));
    buffer.clear();
    assert_eq!(buffer.bytes(), 0);
    assert!(buffer.pointer().iter().all(|&b| b == 0));
}

#[test]
fn device_scores_frames_and_data() {
    let device = host();
    let mut buffer = Buffer::allocate(64, false, false).unwrap();
    assert!(device.queue(&mut buffer, &[1, 2, 3]).is_ok());
    assert!(device.queue(&mut buffer, &[7]).is_ok());
    assert_eq!(device.eval(&buffer), Ok(10 + 20 + 20 + 1000));
    let mut plain = Buffer::allocate(64, false, false).unwrap();
    assert!(plain.write(&[6, 14, 8]).is_ok());
    assert_eq!(device.eval(&plain), Ok(90 + 90 + 0));
    assert!(plain.write(&[]).is_ok());
    assert_eq!(device.eval(&plain), Err(Status::Fault));
}

#[test]
fn device_accounting() {
    let mut device = host();
    assert_eq!(device.status(), Status::Active);
    assert_eq!(device.allocate(0).err(), Some(Status::Fault));
    let mut buffer = device.allocate(1000).unwrap();
    assert_eq!(device.guard().allocated(), 1000);
    assert_eq!(device.guard().count(), 1);
    assert!(!buffer.device());
    assert!(device.free(&mut buffer).is_ok());
    assert_eq!(device.guard().allocated(), 0);
    assert_eq!(device.allocate(Guard::CEILING + 1).err(), Some(Status::Exhausted));
    assert_eq!(device.adapter_name(), "CPU SIMD Vector Engine");
    assert_eq!(device.name(), "CPU SIMD Vector Fallback Engine");
    assert_eq!(device.memory(), Guard::LIMIT);
    assert!(device.active());
    assert!(!device.kernel());
    assert!(device.batch(16384) && !device.batch(0) && !device.batch(16385));
    let gpu = Device::new(Backend::Metal, Some("Apple M1".to_string()), true);
    assert_eq!(gpu.status(), Status::Ready);
    assert_eq!(gpu.adapter_name(), "Apple M1");
    assert!(gpu.kernel());
}

#[test]
fn guard_limits() {
    let mut guard = Guard::new();
    assert_eq!(guard.status(), Status::Ready);
    assert_eq!(guard.reserve(0), Err(Status::Fault));
    assert_eq!(guard.reserve(100), Ok(100));
    assert_eq!(guard.status(), Status::Active);
    assert_eq!(guard.reserve(Guard::CEILING), Err(Status::Exhausted));
    assert_eq!(guard.reserve(Guard::CEILING - 100), Ok(Guard::CEILING));
    assert_eq!(guard.status(), Status::Exhausted);
    assert_eq!(guard.peak(), Guard::CEILING);
    assert_eq!(guard.count(), 2);
    guard.release(Guard::CEILING - 100);
    assert_eq!(guard.allocated(), 100);
    guard.release(500);
    assert_eq!(guard.allocated(), 0);
    assert_eq!(guard.count(), 0);
    guard.release(1);
    assert_eq!(guard.count(), 0);
    assert_eq!(guard.peak(), Guard::CEILING);
    assert_eq!(guard.validate(10), Status::Ready);
    assert_eq!(guard.validate(Guard::CEILING + 1), Status::Full);
    assert_eq!(guard.validate(Guard::LIMIT + 1), Status::Fail);
    assert_eq!(guard.chunks(0), 0);
    assert_eq!(guard.chunks(1), 1);
    assert_eq!(guard.chunks(Guard::CHUNK), 1);
    assert_eq!(guard.chunks(Guard::CHUNK + 1), 2);
    guard.wipe();
    assert_eq!(guard.peak(), 0);
}

fn sample_of(fen: &str, side: u8) -> Sample {
    let pos = Parser::parse(fen);
    let mut sample = Sample::pack(&pos, 0);
    sample.side = side;
    sample
}

#[test]
fn evaluator_material() {
    let evaluator = Evaluator::new(host()).unwrap();
    assert!(!evaluator.hardware());
    assert_eq!(evaluator.status(), Status::Active);
    assert_eq!(evaluator.batch(), 16384);
    let start = sample_of(Parser::DEFAULT, 0);
    assert_eq!(evaluator.compute(&start), Ok(0));
    let rook = sample_of("3k5/9/9/9/9/9/9/9/9/4K1R2 w - - 0 1", 0);
    assert_eq!(evaluator.compute(&rook), Ok(90));
    let rook_black = sample_of("3k5/9/9/9/9/9/9/9/9/4K1R2 w - - 0 1", 1);
    assert_eq!(evaluator.compute(&rook_black), Ok(-90));
    assert_eq!(evaluator.eval(&rook), Ok(90));
    let mut king = Sample::new();
    let mut grid = [14u8; 90];
    grid[4] = 0;
    king.encode(&grid, 0);
    assert_eq!(evaluator.compute(&king), Ok(1000));
    king.encode(&grid, 1);
    assert_eq!(evaluator.compute(&king), Ok(-1000));
    grid[4] = 6;
    king.encode(&grid, 0);
    assert_eq!(evaluator.compute(&king), Ok(10));
}

#[test]
fn evaluator_routes_and_falls_back() {
    let gpu = Device::new(Backend::Wgpu, Some("card".to_string()), false);
    let mut spare = host();
    let evaluator = Evaluator::new(gpu).unwrap();
    assert!(evaluator.hardware());
    assert!(!evaluator.plan(511));
    assert!(evaluator.plan(512));
    assert!(!evaluator.plan(16385));
    let mut batch = Batch::allocate(&mut spare, 600).unwrap();
    let rook = sample_of("3k5/9/9/9/9/9/9/9/9/4K1R2 w - - 0 1", 0);
    for _ in 0..600 {
        assert!(batch.push(&rook).is_ok());
    }
    let answer: Vec<i32> = (0..600).map(|i| i as i32).collect();
    assert!(evaluator.execute(&mut batch, 600, Some(&answer)).is_ok());
    assert_eq!(batch.pull(599).unwrap().score(), 599);
    assert!(evaluator.execute(&mut batch, 600, None).is_ok());
    assert_eq!(batch.pull(599).unwrap().score(), 90);
    assert!(evaluator.execute(&mut batch, 600, Some(&answer[..10])).is_ok());
    assert_eq!(batch.pull(5).unwrap().score(), 90);
}

#[test]
fn evaluator_submits_scores() {
    let mut evaluator = Evaluator::new(host()).unwrap();
    let rook = sample_of("3k5/9/9/9/9/9/9/9/9/4K1R2 w - - 0 1", 1);
    assert!(evaluator.submit(&rook).is_ok());
    let mut target = [0u8; 4];
    assert!(evaluator.buffer.pull(&mut target).is_ok());
    assert_eq!(i32::from_le_bytes(target), -90);
    evaluator.active = false;
    assert_eq!(evaluator.compute(&rook), Err(Status::Fault));
    assert!(evaluator.reset().is_ok());
    assert_eq!(evaluator.status(), Status::Ready);
}

#[test]
fn kernel_limits() {
    let mut kernel = Kernel::init(10, 128, 64, false).unwrap();
    assert_eq!(Kernel::init(0, 1, 1, false).err(), Some(Status::Fault));
    let buffer = Buffer::allocate(64, true, false).unwrap();
    assert_eq!(kernel.dispatch(&buffer, 0), Err(Status::Fault));
    assert_eq!(kernel.dispatch(&buffer, 11), Err(Status::Full));
    assert_eq!(kernel.execute(&buffer), Err(Status::Fault));
    assert_eq!(kernel.dispatch(&buffer, 4), Ok(4));
    assert_eq!(kernel.dispatch(&buffer, 6), Ok(0));
    assert_eq!(kernel.batch(), 0);
    let mut target = [0isize; 10];
    assert_eq!(kernel.finish(&buffer, &mut target), Ok(10));
    let mut short = [0isize; 9];
    assert_eq!(kernel.finish(&buffer, &mut short), Err(Status::Fault));
    assert_eq!(kernel.poll(), Status::Ready);
    assert_eq!(kernel.flush(&buffer), Ok(0));
    kernel.reset();
    assert_eq!(kernel.finish(&buffer, &mut short), Ok(0));
}

#[test]
fn aggregator_counts() {
    let mut aggregator = Aggregator::new(5);
    assert_eq!(aggregator.capacity(), 8);
    let sample = Sample::new();
    for _ in 0..8 {
        assert!(aggregator.push(&sample).is_ok());
    }
    assert_eq!(aggregator.push(&sample), Err(Status::Full));
    assert_eq!(aggregator.count(), 9);
    let mut target = [Sample::new(); 3];
    assert_eq!(aggregator.pull(&mut target), 3);
    assert_eq!(aggregator.count(), 6);
    assert_eq!(aggregator.head(), 3);
    aggregator.clear();
    assert_eq!(aggregator.count(), 0);
    assert_eq!(aggregator.tail(), 0);
}

#[test]
fn ring_buffer_swaps() {
    let mut device = host();
    let mut ring = RingBuffer::allocate(&mut device, 4).unwrap();
    let rook = sample_of("3k5/9/9/9/9/9/9/9/9/4K1R2 w - - 0 1", 0);
    assert!(ring.push(&rook).is_ok());
    assert_eq!(ring.active_batch_mut().count(), 1);
    ring.swap();
    assert!(ring.is_ready());
    assert_eq!(ring.passive_batch_mut().count(), 1);
    let evaluator = Evaluator::new(host()).unwrap();
    assert_eq!(ring.flush_gpu(&evaluator, None), Ok(0));
    assert!(ring.push(&rook).is_ok());
    assert!(ring.push(&rook).is_ok());
    ring.swap();
    ring.swap();
    assert_eq!(ring.active_batch_mut().count(), 2);
    assert_eq!(ring.passive_batch_mut().count(), 1);
    ring.close();
    assert!(ring.is_closed());
    assert!(RingBuffer::allocate(&mut device, 0).is_err());
}

#[test]
fn gym_refuses_and_fills() {
    let mut gym = Gym::new(host(), host()).unwrap();
    let mut bad = Sample::new();
    bad.side = 2;
    assert_eq!(gym.submit(&bad), Err(Status::Fault));
    assert_eq!(gym.evaluate(&[]), Err(Status::Fault));
    assert_eq!(gym.evaluate(&[12u8]), Ok(-45));
    let sample = Sample::new();
    for _ in 0..4096 {
        assert!(gym.submit(&sample).is_ok());
    }
    assert_eq!(gym.count(), 4096);
    assert_eq!(gym.batch().count(), 0);
    assert_eq!(gym.limit(), 4096);
    assert!(gym.reset().is_ok());
    assert_eq!(gym.count(), 0);
}

#[test]
fn backend_ratings() {
    assert_eq!(Backend::Cuda.name(), "CUDA (cuda:0)");
    assert_eq!(Backend::Cpu.speed(), 10);
    assert_eq!(Backend::Wgpu.rank(), 3);
    assert!(Backend::Opencl.hardware() && Backend::Opencl.valid());
    assert!(!Backend::Cpu.valid());
    assert_eq!(Status::Cpu.code(), 6);
    assert_eq!(Status::Exhausted.name(), "Exhausted");
    assert!(!Status::Fail.valid());
}

#[test]
fn loader_roundtrip_in_memory() {
    let table = entries();
    let bytes = Loader::encode_xrbk(&table[..20]);
    assert_eq!(bytes.len(), 16 + 20 * 16);
    let back = Loader::decode_xrbk(&bytes).unwrap();
    assert_eq!(back.len(), 20);
    for (a, b) in back.iter().zip(table[..20].iter()) {
        assert_eq!((a.hash, a.mv, a.weight), (b.hash, b.mv, b.weight));
    }
    assert_eq!(Loader::decode_xrbk(&bytes[..10]).err(), Some(BookFault::Truncated));
    let mut wrong = bytes.clone();
    wrong[0] = 0;
    assert_eq!(Loader::decode_xrbk(&wrong).err(), Some(BookFault::Invalid));
    let empty: Vec<Entry> = Vec::new();
    assert_eq!(Loader::decode_xrbk(&Loader::encode_xrbk(&empty)).unwrap().len(), 0);
}

#[test]
fn arbiter_pop_undoes_push() {
    let mut arbiter = Arbiter::new();
    let pos = Parser::parse(Parser::DEFAULT);
    arbiter.push(&pos, Move::new(1, 2), false, false);
    let before = arbiter.count;
    arbiter.push(&pos, Move::new(3, 4), true, false);
    arbiter.pop();
    assert_eq!(arbiter.count, before);
}

#[test]
fn accumulator_update_undone() {
    let mut acc = Accumulator::new();
    let before = acc;
    let mut add = [0i16; 512];
    let mut sub = [0i16; 512];
    for i in 0..512 {
        add[i] = i as i16;
        sub[i] = (3 * i) as i16 - 700;
    }
    acc.update(&add, &sub);
    assert_ne!(acc, before);
    acc.update(&sub, &add);
    assert_eq!(acc, before);
}

#[test]
fn queue_first_in_first_out() {
    let mut queue = Queue::new(4);
    let mut first = Item::empty();
    first.id = 7;
    let mut second = Item::empty();
    second.id = 8;
    assert!(queue.push(first));
    assert!(queue.push(second));
    assert_eq!(queue.len(), 2);
    assert_eq!(queue.pop().unwrap().id, 7);
    assert_eq!(queue.pop().unwrap().id, 8);
    assert!(queue.pop().is_none());
    assert!(queue.empty());
}

#[test]
fn bus_message_text() {
    let mut bus = Bus::new(4, 4);
    assert!(bus.send(Command::Stop));
    let item = bus.poll().unwrap();
    assert_eq!(item.kind, Kind::Command);
    assert_eq!(item.data, "Stop");
}

#[test]
fn fen_errors() {
    assert_eq!(Validator::audit(""), Err(Fault::Format));
    assert_eq!(Validator::audit("rnbakabnr/9/1c5c1/p1p1p1p1p/9/9/P1P1P1P1P/1C5C1/9/RNBAKABNX w - - 0 1"), Err(Fault::Syntax));
    assert_eq!(Validator::audit("rnbakabnr/9/1c5c1/p1p1p1p1p/9/9/P1P1P1P1P/1C5C1/9/RNBAKABNR x - - 0 1"), Err(Fault::Turn));
    let pos = Parser::parse("3k5/9/9/9/9/9/9/9/9/4K1R2 b - - 0 1");
    assert_eq!(Serializer::export(&pos), "3k5/9/9/9/9/9/9/9/9/4K1R2 b - - 0 1");
}

#[test]
fn loader_import_replaces_learnt_moves() {
    let table = entries();
    let bytes = Loader::encode_xrbk(&table[..5]);
    let mut book = xiangqi_rim::book::Book::default();
    assert_eq!(Loader::import(&mut book, &bytes), Ok(5));
    assert_eq!(book.count(), 5);
    assert_eq!(book.find(table[3].hash).unwrap().raw(), table[3].mv);
    assert_eq!(Loader::import(&mut book, &bytes[..20]), Err(BookFault::Truncated));
    assert_eq!(book.count(), 5);
}

#[test]
fn fen_position_roundtrip() {
    let mut pos = Parser::parse("3k5/4r4/9/9/9/9/9/9/4C4/4K1R2 b - - 12 40");
    assert_eq!(pos.side, 1);
    assert_eq!(pos.rule, 12);
    assert_eq!(pos.ply, 40);
    let _ = pos.apply(85, 76);
    let text = Serializer::export(&pos);
    let back = Parser::parse(&text);
    assert_eq!(back.grid, pos.grid);
    assert_eq!(back.side, pos.side);
    assert_eq!(back.rule, pos.rule);
    assert_eq!(back.ply, pos.ply);
}

#[test]
fn endgame_sync_then_probe() {
    let mut endgame = xiangqi_rim::book::Endgame::new();
    assert!(endgame.sync(5, 100));
    assert!(endgame.sync(6, -100));
    assert!(endgame.sync(5, 300));
    assert_eq!(endgame.count(), 2);
    assert_eq!(endgame.probe(5), Some(300));
    assert_eq!(endgame.probe(6), Some(-100));
    assert_eq!(endgame.probe(7), None);
}

#[test]
fn book_keeps_heavier_move() {
    let mut book = xiangqi_rim::book::Book::default();
    assert!(book.sync(42, 0x0102, 10));
    assert!(book.sync(42, 0x0304, 5));
    assert_eq!(book.find(42).unwrap().raw(), 0x0102);
    assert!(book.sync(42, 0x0506, 20));
    assert_eq!(book.find(42).unwrap().raw(), 0x0506);
    assert_eq!(book.count(), 1);
}

#[test]
fn gym_batch_and_kernel_through_traits() {
    let mut gym = Gym::new(host(), host()).unwrap();
    let mut sample = Sample::new();
    sample.store(42);
    assert_eq!(Batchable::pull(&gym, 0), Err(Status::Fault));
    assert_eq!(Batchable::write(&mut gym, 0, &sample), Err(Status::Fault));
    assert_eq!(Batchable::push(&mut gym, &sample), Ok(()));
    assert_eq!(Batchable::pull(&gym, 0).map(|s| s.score()), Ok(42));
    sample.store(7);
    assert_eq!(Batchable::write(&mut gym, 0, &sample), Ok(()));
    assert_eq!(Batchable::pull(&gym, 0).map(|s| s.score()), Ok(7));
    assert_eq!(Accelerable::flush(&mut gym), Ok(1));
    assert_eq!(gym.count(), 1);
    let buffer = Buffer::allocate(64, false, false).unwrap();
    assert_eq!(Dispatchable::flush(&mut gym, &buffer), Ok(0));
    let mut target = [0isize; 4];
    assert_eq!(Dispatchable::finish(&gym, &buffer, &mut target), Ok(0));
    assert_eq!(Dispatchable::finish(&gym, &buffer, &mut [0isize; 0]), Err(Status::Fault));
}

#[test]
fn buffer_refuses_sizes_no_layout_takes() {
    let too_big = (isize::MAX as usize) / 2 + 2;
    assert_eq!(Buffer::allocate(too_big, false, false).err(), Some(Status::Fault));
    assert_eq!(Buffer::allocate(usize::MAX, false, false).err(), Some(Status::Fault));
}

#[test]
fn buffer_pull_after_push_then_nothing() {
    let mut buffer = Buffer::allocate(128, false, false).unwrap();
    assert_eq!(buffer.push(&[42u8; 32]), Ok(()));
    let mut target = [0u8; 32];
    assert_eq!(buffer.pull(&mut target), Ok(()));
    assert_eq!(target, [42u8; 32]);
    assert_eq!(buffer.pull(&mut target), Err(Status::Ready));
}

#[test]
fn written_record_reads_and_writes_back() {
    for text in [Parser::DEFAULT, "3k5/9/9/9/9/9/9/9/9/4K1R2 b - - 12 40"] {
        let once = Serializer::export(&Parser::parse(text));
        assert_eq!(once, text);
        assert_eq!(Serializer::export(&Parser::parse(&once)), once);
        let pos = Parser::parse(text);
        let mut buf = [0u8; 96];
        let n = Serializer::export_bytes(&pos, &mut buf);
        assert_eq!(&buf[..n], once.as_bytes());
    }
}

#[test]
fn export_bytes_writes_long_clocks_in_decimal() {
    let mut pos = Parser::parse("3k5/9/9/9/9/9/9/9/9/4K1R2 w - - 0 1");
    pos.rule = 1234;
    pos.ply = 65535;
    let text = Serializer::export(&pos);
    assert!(text.ends_with(" 1234 65535"));
    let mut buf = [7u8; 96];
    let n = Serializer::export_bytes(&pos, &mut buf);
    assert_eq!(&buf[..n], text.as_bytes());
    assert!(buf[n..].iter().all(|&b| b == 7));
}

#[test]
fn single_slot_queue() {
    for cap in [0usize, 1] {
        let mut queue = Queue::new(cap);
        assert_eq!(queue.cap, 1);
        let mut first = Item::empty();
        first.id = 7;
        assert!(queue.push(first));
        assert_eq!(queue.pop().unwrap().id, 7);
        assert!(queue.pop().is_none());
        let mut a = Item::empty();
        a.id = 1;
        let mut b = Item::empty();
        b.id = 2;
        assert!(queue.push(a));
        assert!(queue.push(b));
        assert_eq!(queue.len(), 2);
        assert_eq!(queue.slots[0].item.id, 2);
    }
    let mut bus = Bus::new(1, 4);
    assert!(bus.send(Command::Stop));
    assert_eq!(bus.poll().unwrap().kind, Kind::Command);
    assert!(bus.poll().is_none());
}

#[test]
fn find_hash_consults_learnt_moves_first() {
    let mut book = xiangqi_rim::book::Book::default();
    let table = entries();
    let target = table[100];
    assert_eq!(
        xiangqi_rim::book::Book::find_hash(&book.dynamic, &book.entries, target.hash).map(|m| m.raw()),
        Some(target.mv)
    );
    assert!(book.sync(target.hash, 0x0A0B, 5000));
    assert_eq!(
        xiangqi_rim::book::Book::find_hash(&book.dynamic, &book.entries, target.hash).map(|m| m.raw()),
        Some(0x0A0B)
    );
    assert_eq!(xiangqi_rim::book::Book::find_hash(&[], &[], 1), None);
}
