use maru::instancer::{BoundInstancer, DrawCall, Instancer};

#[derive(Copy, Clone, Debug, PartialEq)]
struct Sprite {
    x: f32,
    y: f32,
    scale_x: f32,
    alpha: f32,
}

impl Default for Sprite {
    fn default() -> Self {
        Sprite { x: 0.0, y: 0.0, scale_x: 1.0, alpha: 1.0 }
    }
}

fn counts<T>(calls: &[DrawCall<T>]) -> Vec<usize> {
    calls.iter().map(|c| c.count()).collect()
}

fn push_all<M>(s: &mut BoundInstancer<'_, u32, M>, from: u32, to: u32) {
    for v in from..to {
        s.push(v);
    }
}

#[test]
fn new_instancer_is_empty() {
    for cap in [1usize, 2, 4, 50, 1000] {
        let inst: Instancer<u32> = Instancer::new(cap);
        assert_eq!(inst.fill_count(), 0);
        assert_eq!(inst.empty_count(), cap);
        assert_eq!(inst.capacity(), cap);
    }
}

#[test]
fn full_buffer_is_one_draw_call() {
    let inst: Instancer<u32> = Instancer::new(4);
    let mut s = inst.bind(&());
    push_all(&mut s, 0, 4);
    assert_eq!(s.fill_count(), 4);
    assert_eq!(s.empty_count(), 0);
    let (inst, calls) = s.end();
    assert_eq!(counts(&calls), vec![4]);
    assert_eq!(calls[0].instances, vec![0, 1, 2, 3]);
    assert_eq!(inst.fill_count(), 0);
    assert_eq!(inst.empty_count(), 4);
}

#[test]
fn one_past_full_is_two_draw_calls() {
    let inst: Instancer<u32> = Instancer::new(4);
    let mut s = inst.bind(&());
    push_all(&mut s, 0, 5);
    assert_eq!(s.fill_count(), 1);
    let (_, calls) = s.end();
    assert_eq!(counts(&calls), vec![4, 1]);
    assert_eq!(calls[0].instances, vec![0, 1, 2, 3]);
    assert_eq!(calls[1].instances, vec![4]);
}

#[test]
fn auto_flush_happens_before_the_write() {
    let inst: Instancer<u32> = Instancer::new(4);
    let mut s = inst.bind(&());
    push_all(&mut s, 0, 4);
    assert!(s.take_calls().is_empty());
    s.push(4);
    let taken = s.take_calls();
    assert_eq!(counts(&taken), vec![4]);
    assert_eq!(s.fill_count(), 1);
    let (_, calls) = s.end();
    assert_eq!(counts(&calls), vec![1]);
    assert_eq!(calls[0].instances, vec![4]);
}

#[test]
fn font_capacity_eight_default_pulls() {
    let widths = [5.0f32, 3.0, 7.0, 4.0, 4.0, 6.0, 2.0, 5.0];
    let inst: Instancer<Sprite> = Instancer::new(50);
    let mut s = inst.bind(&());
    let mut x = 0.0f32;
    for w in widths {
        let sp = s.pull_default();
        sp.x = x;
        sp.scale_x = w;
        x += w + 1.0;
    }
    let (_, calls) = s.end();
    assert_eq!(counts(&calls), vec![8]);
    let xs: Vec<f32> = calls[0].instances.iter().map(|sp| sp.x).collect();
    assert_eq!(xs, vec![0.0, 6.0, 10.0, 18.0, 23.0, 28.0, 35.0, 38.0]);
}

#[test]
fn empty_session_draws_nothing() {
    let inst: Instancer<u32> = Instancer::new(4);
    let s = inst.bind(&());
    let (inst, calls) = s.end();
    assert!(calls.is_empty());
    assert_eq!(inst.fill_count(), 0);
}

#[test]
fn explicit_draw_splits_batches() {
    let inst: Instancer<u32> = Instancer::new(10);
    let mut s = inst.bind(&());
    push_all(&mut s, 0, 3);
    s.draw();
    assert_eq!(s.fill_count(), 0);
    push_all(&mut s, 3, 5);
    let (_, calls) = s.end();
    assert_eq!(counts(&calls), vec![3, 2]);
    assert_eq!(calls[0].instances, vec![0, 1, 2]);
    assert_eq!(calls[1].instances, vec![3, 4]);
}

#[test]
fn repeated_draw_on_empty_buffer_draws_nothing() {
    let inst: Instancer<u32> = Instancer::new(3);
    let mut s = inst.bind(&());
    s.draw();
    s.draw();
    s.draw();
    assert!(s.take_calls().is_empty());
    s.push(7);
    s.draw();
    s.draw();
    let (_, calls) = s.end();
    assert_eq!(counts(&calls), vec![1]);
}

#[test]
fn end_flushes_pending_records() {
    let inst: Instancer<u32> = Instancer::new(8);
    let mut s = inst.bind(&());
    push_all(&mut s, 0, 5);
    s.draw();
    push_all(&mut s, 5, 7);
    assert_eq!(s.fill_count(), 2);
    let (_, calls) = s.end();
    assert_eq!(counts(&calls), vec![5, 2]);
    assert_eq!(calls[1].instances, vec![5, 6]);
}

#[test]
fn pull_default_gives_the_default_record() {
    let inst: Instancer<Sprite> = Instancer::new(2);
    let mut s = inst.bind(&());
    for _ in 0..5 {
        let sp = s.pull_default();
        assert_eq!(*sp, Sprite::default());
        sp.x = 9.0;
        sp.alpha = 0.5;
    }
    let (_, calls) = s.end();
    assert_eq!(counts(&calls), vec![2, 2, 1]);
    for c in &calls {
        for sp in &c.instances {
            assert_eq!(*sp, Sprite { x: 9.0, y: 0.0, scale_x: 1.0, alpha: 0.5 });
        }
    }
}

#[test]
fn pull_keeps_what_the_caller_writes() {
    let inst: Instancer<u32> = Instancer::new(2);
    let mut s = inst.bind(&());
    for v in 10..15u32 {
        *s.pull() = v;
    }
    let (_, calls) = s.end();
    assert_eq!(counts(&calls), vec![2, 2, 1]);
    assert_eq!(calls[0].instances, vec![10, 11]);
    assert_eq!(calls[1].instances, vec![12, 13]);
    assert_eq!(calls[2].instances, vec![14]);
}

#[test]
fn draw_call_count_is_ceiling() {
    for k in 1usize..6 {
        for n in 0u32..23 {
            let inst: Instancer<u32> = Instancer::new(k);
            let mut s = inst.bind(&());
            push_all(&mut s, 0, n);
            let (_, calls) = s.end();
            let n = n as usize;
            assert_eq!(calls.len(), (n + k - 1) / k);
            let total: usize = counts(&calls).iter().sum();
            assert_eq!(total, n);
            let flat: Vec<u32> = calls.iter().flat_map(|c| c.instances.clone()).collect();
            assert_eq!(flat, (0..n as u32).collect::<Vec<u32>>());
        }
    }
}

#[test]
fn order_is_kept_across_draw_calls() {
    let inst: Instancer<u32> = Instancer::new(3);
    let mut s = inst.bind(&());
    push_all(&mut s, 0, 10);
    let (_, calls) = s.end();
    assert_eq!(counts(&calls), vec![3, 3, 3, 1]);
    assert_eq!(calls[0].instances, vec![0, 1, 2]);
    assert_eq!(calls[1].instances, vec![3, 4, 5]);
    assert_eq!(calls[2].instances, vec![6, 7, 8]);
    assert_eq!(calls[3].instances, vec![9]);
}

#[test]
fn clear_discards_pending_records() {
    let inst: Instancer<u32> = Instancer::new(4);
    let mut s = inst.bind(&());
    push_all(&mut s, 0, 3);
    s.clear();
    assert_eq!(s.fill_count(), 0);
    assert_eq!(s.empty_count(), 4);
    s.push(42);
    let (_, calls) = s.end();
    assert_eq!(counts(&calls), vec![1]);
    assert_eq!(calls[0].instances, vec![42]);
}

#[test]
fn instancer_is_reused_across_sessions() {
    let inst: Instancer<u32> = Instancer::new(2);
    let quad = 1u8;
    let centered = 2u8;
    let mut s = inst.bind(&quad);
    assert_eq!(*s.mesh(), 1);
    push_all(&mut s, 0, 3);
    let (inst, first) = s.end();
    let mut s = inst.bind(&centered);
    assert_eq!(*s.mesh(), 2);
    assert_eq!(s.fill_count(), 0);
    push_all(&mut s, 3, 4);
    let (inst, second) = s.end();
    assert_eq!(counts(&first), vec![2, 1]);
    assert_eq!(second[0].instances, vec![3]);
    assert_eq!(inst.capacity(), 2);
}

#[test]
fn capacity_one_draws_every_record() {
    let inst: Instancer<u32> = Instancer::new(1);
    let mut s = inst.bind(&());
    push_all(&mut s, 0, 4);
    let (_, calls) = s.end();
    assert_eq!(counts(&calls), vec![1, 1, 1, 1]);
}
