use lc3::state::State;
use lc3::{do_trap, load_image, out_byte, puts_chars, putsp_chars, run_steps, step};

fn fresh() -> State {
    let st = State::new();
    assert!(st.is_well_formed());
    st
}

#[test]
fn step_fetches_advances_and_executes() {
    let mut st = fresh();
    st.reg.gpr[1] = 10;
    st.mem.write(0x3000, 0x1065); // ADD R0, R1, #5
    assert_eq!(step(&mut st), Ok(()));
    assert_eq!(st.reg.gpr[0], 15);
    assert_eq!(st.reg.pc, 0x3001);
    assert!(st.running);
}

#[test]
fn step_on_rti_stops_the_machine() {
    let mut st = fresh();
    st.mem.write(0x3000, 0x8000); // RTI: not simulated
    assert_eq!(step(&mut st), Ok(()));
    assert!(!st.running);
}

#[test]
fn step_on_reserved_opcode_stops_the_machine() {
    let mut st = fresh();
    st.mem.write(0x3000, 0xD000); // reserved
    assert_eq!(step(&mut st), Ok(()));
    assert!(!st.running);
}

#[test]
fn halt_trap_stops_and_nothing_more_is_fetched() {
    let mut st = fresh();
    st.mem.write(0x3000, 0xF025); // TRAP HALT
    st.mem.write(0x3001, 0x1065); // would be an ADD, must never run
    assert_eq!(run_steps(&mut st, 1000), Ok(true));
    assert!(!st.running);
    assert_eq!(st.reg.pc, 0x3001); // stopped right after the trap
    assert_eq!(st.reg.gpr[0], 0); // the following instruction never ran
    // the machine stays halted; further driving fetches nothing
    assert_eq!(run_steps(&mut st, 1000), Ok(true));
    assert_eq!(st.reg.pc, 0x3001);
}

#[test]
fn trap_links_r7_to_following_instruction() {
    let mut st = fresh();
    st.mem.write(0x3000, 0xF025); // TRAP HALT
    assert_eq!(run_steps(&mut st, 10), Ok(true));
    assert_eq!(st.reg.gpr[7], 0x3001);
}

#[test]
fn unknown_trap_vector_is_a_reported_error() {
    let mut st = fresh();
    assert_eq!(do_trap(0xF0FF, &mut st), Err(0xFF));
    assert!(st.running); // the error is the caller's to act on
    assert_eq!(st.reg.gpr[7], 0x3000); // the link still happened
}

#[test]
fn unknown_trap_vector_aborts_a_run() {
    let mut st = fresh();
    st.mem.write(0x3000, 0xF026);
    assert_eq!(run_steps(&mut st, 10), Err(0x26));
}

#[test]
fn run_out_of_budget_reports_still_running() {
    let mut st = fresh();
    // BRnzp #-1: a tight endless loop
    st.mem.write(0x3000, 0x0FFF);
    assert_eq!(run_steps(&mut st, 100), Ok(false));
    assert!(st.running);
}

#[test]
fn counting_program_runs_to_halt() {
    let mut st = fresh();
    // R0 <- R0 + 1 three times, then HALT
    let image: Vec<u8> = vec![
        0x30, 0x00, // origin
        0x10, 0x21, // ADD R0, R0, #1
        0x10, 0x21, // ADD R0, R0, #1
        0x10, 0x21, // ADD R0, R0, #1
        0xF0, 0x25, // TRAP HALT
    ];
    assert_eq!(load_image(&mut st.mem, &image), Ok(()));
    assert_eq!(run_steps(&mut st, 1000), Ok(true));
    assert_eq!(st.reg.gpr[0], 3);
    assert_eq!(st.reg.cond, 1); // positive
    assert!(!st.running);
}

#[test]
fn puts_collects_until_zero_terminator() {
    let mut st = fresh();
    st.mem.write(0x4000, 'H' as u16);
    st.mem.write(0x4001, 'I' as u16);
    st.mem.write(0x4002, 0);
    st.mem.write(0x4003, 'X' as u16); // beyond the terminator: never read
    let out = puts_chars(&st.mem, 0x4000);
    assert_eq!(out, b"HI".to_vec());
}

#[test]
fn puts_takes_the_low_byte_of_each_word() {
    let mut st = fresh();
    st.mem.write(0x4000, 0x0248); // high byte ignored, low byte 'H'
    st.mem.write(0x4001, 0);
    assert_eq!(puts_chars(&st.mem, 0x4000), b"H".to_vec());
}

#[test]
fn puts_on_immediate_terminator_is_empty() {
    let st = fresh();
    assert_eq!(puts_chars(&st.mem, 0x4000), Vec::<u8>::new());
}

#[test]
fn putsp_unpacks_two_characters_per_word() {
    let mut st = fresh();
    st.mem.write(0x5000, 0x4948); // 'H' low, 'I' high
    st.mem.write(0x5001, 0x0021); // '!' low, zero high byte skipped
    st.mem.write(0x5002, 0);
    assert_eq!(putsp_chars(&st.mem, 0x5000), b"HI!".to_vec());
}

#[test]
fn puts_trap_prints_and_keeps_the_machine_running() {
    let mut st = fresh();
    st.reg.gpr[0] = 0x4000;
    st.mem.write(0x4000, 'O' as u16);
    st.mem.write(0x4001, 'K' as u16);
    st.mem.write(0x4002, 0);
    assert_eq!(do_trap(0xF022, &mut st), Ok(())); // TRAP PUTS
    assert!(st.running);
    assert_eq!(st.reg.gpr[0], 0x4000); // R0 itself is untouched
    assert_eq!(st.mem.data[0x4000], 'O' as u16);
}

#[test]
fn out_trap_emits_the_low_byte_of_r0() {
    let mut st = fresh();
    st.reg.gpr[0] = 0x1234;
    assert_eq!(out_byte(&st.reg), 0x34);
    st.reg.gpr[0] = 'A' as u16;
    assert_eq!(out_byte(&st.reg), b'A');
    st.reg.gpr[0] = 0xFF00;
    assert_eq!(out_byte(&st.reg), 0);
}

#[test]
fn out_trap_leaves_state_alone_but_links() {
    let mut st = fresh();
    st.reg.gpr[0] = 'A' as u16;
    assert_eq!(do_trap(0xF021, &mut st), Ok(())); // TRAP OUT
    assert!(st.running);
    assert_eq!(st.reg.gpr[0], 'A' as u16);
    assert_eq!(st.reg.gpr[7], 0x3000);
}
