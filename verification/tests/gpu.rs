use playastation::devices::gpu::gp0::{parse_color, parse_loc, parse_pos, parse_size, Packet};
use playastation::devices::gpu::{Gpu, GpuDmaDirection, GpuStat, VRAM_WIDTH};
use playastation::devices::irq::InterruptController;
use playastation::devices::Mmio;

fn gp0(gpu: &mut Gpu, word: u32) {
    gpu.write(0x0, &word.to_le_bytes());
}

fn gp1(gpu: &mut Gpu, word: u32) {
    gpu.write(0x4, &word.to_le_bytes());
}

fn read(gpu: &mut Gpu, addr: u32) -> u32 {
    let mut buf = [0; 4];
    gpu.read(&mut buf, addr);
    u32::from_le_bytes(buf)
}

#[test]
fn verify_default() {
    let gpustat = GpuStat::default();
    let reg = gpustat.bits;

    assert_eq!(reg, 0x1480_2000);
}

#[test]
fn gpustat_reads_without_bit_19() {
    let mut gpu = Gpu::default();
    gpu.gpustat.bits |= 1 << 19;
    assert_eq!(read(&mut gpu, 0x4), 0x1480_2000);
}

#[test]
fn cpu_to_vram_then_vram_to_cpu_round_trip() {
    let mut gpu = Gpu::default();

    // Copy a 2x2 rectangle to (3, 1).
    gp0(&mut gpu, 0xA000_0000);
    gp0(&mut gpu, 0x0001_0003);
    gp0(&mut gpu, 0x0002_0002);
    gp0(&mut gpu, 0x2222_1111);
    gp0(&mut gpu, 0x4444_3333);
    assert!(!gpu.cmdbuf.packet.needs_more());
    assert_eq!(gpu.vram[VRAM_WIDTH + 3], 0x1111);
    assert_eq!(gpu.vram[VRAM_WIDTH + 4], 0x2222);
    assert_eq!(gpu.vram[2 * VRAM_WIDTH + 3], 0x3333);
    assert_eq!(gpu.vram[2 * VRAM_WIDTH + 4], 0x4444);

    // Read it back through GPUREAD.
    gp0(&mut gpu, 0xC000_0000);
    gp0(&mut gpu, 0x0001_0003);
    gp0(&mut gpu, 0x0002_0002);
    assert!(gpu.gpustat.ready_to_send_vram());
    assert_eq!(read(&mut gpu, 0x0), 0x2222_1111);
    assert_eq!(read(&mut gpu, 0x0), 0x4444_3333);
    assert!(!gpu.gpustat.ready_to_send_vram());
    // Past the end of the transfer GPUREAD gives zero.
    assert_eq!(read(&mut gpu, 0x0), 0);
}

#[test]
fn vram_copy_of_three_by_two_reads_back() {
    let mut gpu = Gpu::default();
    let data = [0x0002_0001, 0x0004_0003, 0x0006_0005];
    gp0(&mut gpu, 0xA000_0000);
    gp0(&mut gpu, 0x0010_0020);
    gp0(&mut gpu, 0x0002_0003);
    for w in data {
        gp0(&mut gpu, w);
    }
    assert_eq!(gpu.vram[0x10 * VRAM_WIDTH + 0x20], 1);
    assert_eq!(gpu.vram[0x11 * VRAM_WIDTH + 0x22], 6);

    gp0(&mut gpu, 0xC000_0000);
    gp0(&mut gpu, 0x0010_0020);
    gp0(&mut gpu, 0x0002_0003);
    for w in data {
        assert_eq!(read(&mut gpu, 0x0), w);
    }
}

#[test]
fn vram_copy_of_odd_area_reads_zero_for_the_extra_half() {
    let mut gpu = Gpu::default();
    gp0(&mut gpu, 0xA000_0000);
    gp0(&mut gpu, 0x0000_0000);
    gp0(&mut gpu, 0x0001_0001);
    gp0(&mut gpu, 0xBEEF_1234);
    // The second half word lands on the next pixel, below the area.
    assert_eq!(gpu.vram[VRAM_WIDTH], 0xBEEF);

    gp0(&mut gpu, 0xC000_0000);
    gp0(&mut gpu, 0x0000_0000);
    gp0(&mut gpu, 0x0001_0001);
    assert_eq!(read(&mut gpu, 0x0), 0x0000_1234);
}

#[test]
fn gp1_commands() {
    let mut gpu = Gpu::default();

    gp1(&mut gpu, 0x0300_0000);
    assert!(!gpu.gpustat.display_disabled());
    gp1(&mut gpu, 0x0300_0001);
    assert!(gpu.gpustat.display_disabled());

    gp1(&mut gpu, 0x0400_0002);
    assert_eq!(gpu.gpustat.dma_direction(), GpuDmaDirection::CpuToGp0);
    gp1(&mut gpu, 0x0400_0003);
    assert_eq!(gpu.gpustat.dma_direction(), GpuDmaDirection::VramToCpu);

    gpu.gpustat.bits |= 1 << 24;
    assert!(gpu.gpustat.interrupt_request());
    gp1(&mut gpu, 0x0200_0000);
    assert!(!gpu.gpustat.interrupt_request());

    // Start a polygon, then reset the command buffer.
    gp0(&mut gpu, 0x2000_0000);
    assert!(gpu.cmdbuf.packet.needs_more());
    gp1(&mut gpu, 0x0100_0000);
    assert!(!gpu.cmdbuf.packet.needs_more());

    gp1(&mut gpu, 0x0400_0001);
    gp1(&mut gpu, 0x0000_0000);
    assert_eq!(gpu.gpustat.bits, 0x1480_2000);
}

#[test]
fn gpu_interrupt_request_raises_line() {
    let mut gpu = Gpu::default();
    let mut int_ctrl = InterruptController::default();

    gpu.tick(&mut int_ctrl);
    assert_eq!(int_ctrl.i_stat.bits, 0);

    gpu.gpustat.bits |= 1 << 24;
    gpu.tick(&mut int_ctrl);
    assert_eq!(int_ctrl.i_stat.bits, 0x2);
}

#[test]
fn packets_wait_for_their_words() {
    // Flat triangle: command + 3 vertices.
    let mut p = Packet::start(0x2000_00FF);
    let mut gpu = Gpu::default();
    for _ in 0..3 {
        assert!(p.needs_more());
        p.push_cmd(0x0010_0020, &mut gpu);
    }
    assert!(!p.needs_more());

    // Gouraud textured quad: command + 4 * (vertex, uv, color) - 1 color.
    let mut p = Packet::start(0x3C00_0000);
    for _ in 0..11 {
        assert!(p.needs_more());
        p.push_cmd(0, &mut gpu);
    }
    assert!(!p.needs_more());

    // Polyline ends with the terminator.
    let mut p = Packet::start(0x4800_0000);
    p.push_cmd(0x0000_0000, &mut gpu);
    p.push_cmd(0x0001_0001, &mut gpu);
    p.push_cmd(0x0002_0002, &mut gpu);
    assert!(p.needs_more());
    p.push_cmd(0x5000_5000, &mut gpu);
    assert!(!p.needs_more());

    // NOP and unknown groups take no words.
    assert!(!Packet::start(0x0000_0000).needs_more());
}

#[test]
fn textured_rectangle_takes_texture_word_then_size() {
    let mut gpu = Gpu::default();
    let mut p = Packet::start(0x6400_0000);
    p.push_cmd(0x0020_0010, &mut gpu);
    p.push_cmd(0x7FC5_5678, &mut gpu);
    assert!(p.needs_more());
    p.push_cmd(0x0008_0004, &mut gpu);
    assert!(!p.needs_more());
    match p {
        Packet::Rect(r) => {
            assert_eq!((r.uv.unwrap().u, r.uv.unwrap().v), (0x78, 0x56));
            assert_eq!((r.clut.unwrap().x, r.clut.unwrap().y), (80, 0x1FF));
            assert_eq!((r.size.unwrap().w, r.size.unwrap().h), (4, 8));
        },
        _ => panic!("expected a rectangle"),
    }
}

#[test]
fn parsers_split_command_words() {
    let c = parse_color(0x0012_3456);
    assert_eq!((c.r, c.g, c.b), (0x56, 0x34, 0x12));
    let p = parse_pos(0x0020_0010);
    assert_eq!((p.x, p.y), (0x10, 0x20));
    let l = parse_loc(0xFFFF_0001);
    assert_eq!((l.x, l.y), (1, -1));
    let s = parse_size(0x0040_0080);
    assert_eq!((s.w, s.h), (0x80, 0x40));
}
