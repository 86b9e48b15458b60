use hachi::emu::chip8::Chip8;
use hachi::emu::consts::{FONTSET_START_ADDR, MEM_SIZE, START_ADDR};
use hachi::emu::font::FONTSET;
use hachi::emu::rom::load_rom;
use hachi::emu::virtual_machine::VirtualMachine;

#[test]
fn verify_font_load_into_memory() {
    let mut chip8 = Chip8::new();
    chip8.load_fonts();

    for (i, val) in FONTSET.iter().enumerate() {
        assert_eq!(chip8.memory[FONTSET_START_ADDR + i], val.clone());
    }
}

#[test]
fn new_chip8_is_clear() {
    let chip8 = Chip8::new();
    assert!(chip8.memory.iter().all(|b| *b == 0));
    assert_eq!(chip8.pc as usize, START_ADDR);
    assert_eq!(chip8.sp, 0);
    assert_eq!(chip8.i, 0);
    assert_eq!(chip8.v, [0; 16]);
    assert_eq!(chip8.stack, [0; 16]);
    assert_eq!(chip8.delay_timer, 0);
    assert_eq!(chip8.sound_timer, 0);
}

#[test]
fn load_fonts_leaves_rest_of_memory() {
    let mut chip8 = Chip8::new();
    chip8.memory[0] = 7;
    chip8.memory[MEM_SIZE - 1] = 9;
    chip8.load_fonts();
    assert_eq!(chip8.memory[0], 7);
    assert_eq!(chip8.memory[MEM_SIZE - 1], 9);
    assert_eq!(chip8.memory[FONTSET_START_ADDR], 0xF0);
    assert_eq!(chip8.memory[FONTSET_START_ADDR + 79], 0x80);
}

#[test]
fn start_loads_font_and_rom() {
    let mut chip8 = Chip8::new();
    chip8.pc = 0x300;
    chip8.start(&[0xA2, 0x2A, 0x60, 0x0C]);
    assert_eq!(&chip8.memory[START_ADDR..START_ADDR + 4], &[0xA2, 0x2A, 0x60, 0x0C]);
    assert_eq!(chip8.memory[START_ADDR + 4], 0);
    assert_eq!(&chip8.memory[FONTSET_START_ADDR..FONTSET_START_ADDR + 80], &FONTSET[..]);
    assert_eq!(chip8.pc, 0x300);
}

#[test]
fn load_rom_trait_method_writes_at_start_address() {
    let mut chip8 = Chip8::new();
    chip8.load_rom(&[1, 2, 3]);
    assert_eq!(&chip8.memory[START_ADDR - 1..START_ADDR + 4], &[0, 1, 2, 3, 0]);
}

#[test]
fn load_rom_fills_memory_to_the_end() {
    let rom: Vec<u8> = (0..(MEM_SIZE - START_ADDR)).map(|k| (k % 251) as u8 + 1).collect();
    let mut memory = [0u8; MEM_SIZE];
    load_rom(&rom, &mut memory);
    assert_eq!(memory[START_ADDR - 1], 0);
    assert_eq!(&memory[START_ADDR..], &rom[..]);
}

#[test]
fn load_rom_empty_changes_nothing() {
    let mut memory = [5u8; MEM_SIZE];
    load_rom(&[], &mut memory);
    assert!(memory.iter().all(|b| *b == 5));
}
