use rust_gb::chain::{Action, BuildChain, Driver, Step};

fn run(from: BuildChain, fail_at: Option<usize>) -> (Vec<Step>, u8) {
    let mut driver = Driver::new(from);
    let mut ran = Vec::new();
    loop {
        match driver.action() {
            Action::Run(step) => {
                ran.push(step);
                driver.report(Some(ran.len() - 1) != fail_at);
            }
            Action::Exit(code) => return (ran, code),
        }
    }
}

const ALL: [Step; 8] = [
    Step::Cargo,
    Step::LlvmLink,
    Step::LlvmCbe,
    Step::KeepCopy,
    Step::Treesitter,
    Step::AstGrep,
    Step::Sdcc,
    Step::Lcc,
];

#[test]
fn stage_names_are_read_exactly() {
    assert_eq!(BuildChain::from_str("rust"), Ok(BuildChain::Rust));
    assert_eq!(BuildChain::from_str("bundle"), Ok(BuildChain::Bundle));
    assert_eq!(BuildChain::from_str("llvm"), Ok(BuildChain::LLVM));
    assert_eq!(BuildChain::from_str("c"), Ok(BuildChain::C));
    assert_eq!(BuildChain::from_str("asm"), Ok(BuildChain::ASM));
    assert_eq!(BuildChain::from_str("Rust"), Err(()));
    assert_eq!(BuildChain::from_str("rust "), Err(()));
    assert_eq!(BuildChain::from_str(""), Err(()));
    assert_eq!(BuildChain::from_str("link"), Err(()));
}

#[test]
fn a_full_build_runs_every_step_in_order() {
    assert_eq!(run(BuildChain::Rust, None), (ALL.to_vec(), 0));
    assert_eq!(BuildChain::Rust.steps(), ALL.to_vec());
}

#[test]
fn a_later_start_runs_the_rest_of_the_full_build() {
    assert_eq!(run(BuildChain::Bundle, None), (ALL[1..].to_vec(), 0));
    assert_eq!(run(BuildChain::LLVM, None), (ALL[2..].to_vec(), 0));
    assert_eq!(run(BuildChain::C, None), (ALL[6..].to_vec(), 0));
    assert_eq!(run(BuildChain::ASM, None), (ALL[7..].to_vec(), 0));
    assert_eq!(BuildChain::LLVM.steps(), ALL[2..].to_vec());
    assert_eq!(BuildChain::ASM.steps(), vec![Step::Lcc]);
}

#[test]
fn a_failed_step_ends_the_build_with_exit_code_one() {
    assert_eq!(run(BuildChain::Rust, Some(0)), (vec![Step::Cargo], 1));
    assert_eq!(run(BuildChain::Rust, Some(4)), (ALL[..5].to_vec(), 1));
    assert_eq!(run(BuildChain::LLVM, Some(1)), (vec![Step::LlvmCbe, Step::KeepCopy], 1));
    assert_eq!(run(BuildChain::ASM, Some(0)), (vec![Step::Lcc], 1));
}

#[test]
fn reports_after_the_end_change_nothing() {
    let mut driver = Driver::new(BuildChain::ASM);
    driver.report(false);
    assert_eq!(driver.action(), Action::Exit(1));
    driver.report(true);
    assert_eq!(driver.action(), Action::Exit(1));
    let mut done = Driver::new(BuildChain::ASM);
    done.report(true);
    assert_eq!(done.action(), Action::Exit(0));
    done.report(false);
    assert_eq!(done.action(), Action::Exit(0));
}

#[test]
fn steps_know_their_stage() {
    assert_eq!(Step::Cargo.stage(), BuildChain::Rust);
    assert_eq!(Step::LlvmLink.stage(), BuildChain::Bundle);
    assert_eq!(Step::LlvmCbe.stage(), BuildChain::LLVM);
    assert_eq!(Step::KeepCopy.stage(), BuildChain::LLVM);
    assert_eq!(Step::Treesitter.stage(), BuildChain::LLVM);
    assert_eq!(Step::AstGrep.stage(), BuildChain::LLVM);
    assert_eq!(Step::Sdcc.stage(), BuildChain::C);
    assert_eq!(Step::Lcc.stage(), BuildChain::ASM);
    assert_eq!(Step::at(0), Some(Step::Cargo));
    assert_eq!(Step::at(7), Some(Step::Lcc));
    assert_eq!(Step::at(8), None);
}

#[test]
fn a_start_reaches_its_own_and_later_stages() {
    assert!(BuildChain::Rust.reaches(BuildChain::Rust));
    assert!(BuildChain::Rust.reaches(BuildChain::ASM));
    assert!(BuildChain::LLVM.reaches(BuildChain::C));
    assert!(!BuildChain::LLVM.reaches(BuildChain::Bundle));
    assert!(!BuildChain::ASM.reaches(BuildChain::C));
    assert_eq!(BuildChain::Rust.index(), 0);
    assert_eq!(BuildChain::ASM.index(), 4);
}
