use witchcraft_server::minidump::symbols::{choose_symbols, SymbolCandidate};

fn sym(address: u64, global: bool) -> SymbolCandidate {
    SymbolCandidate { address, is_definition: true, kind_known: true, has_name: true, global }
}

#[test]
fn prefers_the_first_global_symbol() {
    let table = vec![
        sym(0x20, false),
        sym(0x10, false),
        sym(0x20, true),
        sym(0x20, true),
        sym(0x10, false),
        SymbolCandidate { is_definition: false, ..sym(0x30, true) },
        SymbolCandidate { kind_known: false, ..sym(0x40, true) },
        SymbolCandidate { has_name: false, ..sym(0x50, true) },
        sym(0x05, false),
    ];
    assert_eq!(choose_symbols(&table), vec![(0x05, 8), (0x10, 1), (0x20, 2)]);
}

#[test]
fn empty_table() {
    assert_eq!(choose_symbols(&Vec::new()), Vec::<(u64, usize)>::new());
}
