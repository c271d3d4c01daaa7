//! The symbol table: the names of a program and the addresses they stand for.
//!
//! Two kinds of name share the table. A label names an address in the
//! instruction memory (ROM): the address of the instruction that follows it. A
//! variable names an address in the data memory (RAM), handed out in the order
//! in which the variables are first met. The table starts out with the names
//! that the machine itself defines.

use vstd::prelude::*;
use vstd::hash_map::StringHashMap;
use crate::error::{failed_with, Error, ErrorKind};

verus! {

/// The RAM address of the first variable.
pub const FIRST_VARIABLE_ADDRESS: u16 = 16;

/// The highest value of the next free RAM address; the memory-mapped screen
/// begins right above it.
pub const LAST_VARIABLE_ADDRESS: u16 = 16383;

/// The highest number of instructions that can be counted: the highest value
/// of the next ROM address.
pub const MAX_INSTRUCTIONS: u16 = 65535;

/// The highest address that an entry of the table can hold: the highest value
/// of a 15-bit address.
pub const MAX_ADDRESS: u16 = 32767;

/// The names that the machine defines, with their addresses: the stack and
/// segment pointers, the sixteen registers, the screen and the keyboard.
pub open spec fn predefined() -> Map<Seq<char>, u16> {
    Map::<Seq<char>, u16>::empty()
        .insert("SP"@, 0)
        .insert("LCL"@, 1)
        .insert("ARG"@, 2)
        .insert("THIS"@, 3)
        .insert("THAT"@, 4)
        .insert("R0"@, 0)
        .insert("R1"@, 1)
        .insert("R2"@, 2)
        .insert("R3"@, 3)
        .insert("R4"@, 4)
        .insert("R5"@, 5)
        .insert("R6"@, 6)
        .insert("R7"@, 7)
        .insert("R8"@, 8)
        .insert("R9"@, 9)
        .insert("R10"@, 10)
        .insert("R11"@, 11)
        .insert("R12"@, 12)
        .insert("R13"@, 13)
        .insert("R14"@, 14)
        .insert("R15"@, 15)
        .insert("SCREEN"@, 16384)
        .insert("KBD"@, 24576)
}

/// The mathematical model of a symbol table.
pub struct Symbols {
    /// The address of each name in the table.
    pub entries: Map<Seq<char>, u16>,
    /// The RAM address that the next new variable gets.
    pub ram_address: u16,
    /// The ROM address that the next label gets: the number of instructions
    /// counted so far.
    pub rom_address: u16,
}

impl Symbols {
    /// The table as it is created: the predefined names only.
    pub open spec fn initial() -> Symbols {
        Symbols { entries: predefined(), ram_address: FIRST_VARIABLE_ADDRESS, rom_address: 0 }
    }

    /// What holds of every symbol table: the predefined names are there with
    /// their addresses, every address fits in 15 bits, and the next RAM
    /// address stays within the addresses for variables.
    pub open spec fn wf(self) -> bool {
        &&& predefined().submap_of(self.entries)
        &&& forall|name: Seq<char>| #[trigger]
            self.entries.contains_key(name) ==> self.entries[name] <= MAX_ADDRESS
        &&& FIRST_VARIABLE_ADDRESS <= self.ram_address <= LAST_VARIABLE_ADDRESS
    }

    /// The address of `name`, if the table has it.
    pub open spec fn get(self, name: Seq<char>) -> Option<u16> {
        if self.entries.contains_key(name) {
            Some(self.entries[name])
        } else {
            None
        }
    }

    /// The table after one more instruction has been counted.
    pub open spec fn inc_rom_address(self) -> Symbols {
        Symbols { rom_address: (self.rom_address + 1) as u16, ..self }
    }

    /// The table after one RAM address has been passed over, or the reason why
    /// none is left.
    pub open spec fn inc_ram_address(self) -> Result<Symbols, ErrorKind> {
        if self.ram_address == LAST_VARIABLE_ADDRESS {
            Err(ErrorKind::RAMFull)
        } else {
            Ok(Symbols { ram_address: (self.ram_address + 1) as u16, ..self })
        }
    }

    /// The table after `name` has been entered as a label, with the address
    /// that the label got, or the reason why it was refused: the name is
    /// taken, or the next ROM address does not fit in 15 bits, so that no
    /// entry of the table can hold it.
    pub open spec fn insert_label(self, name: Seq<char>) -> Result<(Symbols, u16), ErrorKind> {
        if self.entries.contains_key(name) {
            Err(ErrorKind::SymbolExists)
        } else if self.rom_address > MAX_ADDRESS {
            Err(ErrorKind::ROMFull)
        } else {
            Ok(
                (
                    Symbols { entries: self.entries.insert(name, self.rom_address), ..self },
                    self.rom_address,
                ),
            )
        }
    }

    /// The table after `name` has been entered as a variable, with the address
    /// that the variable got, or the reason why it was refused: the name is
    /// taken, or the RAM addresses for variables are used up.
    pub open spec fn insert_variable(self, name: Seq<char>) -> Result<(Symbols, u16), ErrorKind> {
        if self.entries.contains_key(name) {
            Err(ErrorKind::SymbolExists)
        } else if self.ram_address == LAST_VARIABLE_ADDRESS {
            Err(ErrorKind::RAMFull)
        } else {
            Ok(
                (
                    Symbols {
                        entries: self.entries.insert(name, self.ram_address),
                        ram_address: (self.ram_address + 1) as u16,
                        ..self
                    },
                    self.ram_address,
                ),
            )
        }
    }
}

/// The SymbolTable is a hashmap that holds both label and variable symbols along with their
/// associated ROM or RAM address respectively.
///
/// It also tracks the next available ROM and RAM addresses which are used when inserting a new
/// symbol.
pub struct SymbolTable {
    table: StringHashMap<u16>,
    ram_address: u16,
    rom_address: u16,
}

impl View for SymbolTable {
    type V = Symbols;

    closed spec fn view(&self) -> Symbols {
        Symbols {
            entries: self.table@,
            ram_address: self.ram_address,
            rom_address: self.rom_address,
        }
    }
}

impl SymbolTable {
    /// The invariant of the table; see [`Symbols::wf`].
    pub open spec fn wf(&self) -> bool {
        self@.wf()
    }

    /// Creates a new SymbolTable instance, initialised with a number of predefined variable
    /// symbols and their associated RAM addresses.
    ///
    /// The next available RAM address is therefore set appropriately to 16, whilst the next ROM
    /// address is set to 0.
    pub fn new() -> (symbols: SymbolTable)
        ensures
            symbols@ == Symbols::initial(),
            symbols.wf(),
    {
        let mut table: StringHashMap<u16> = StringHashMap::new();
        table.insert(String::from_str("SP"), 0);
        table.insert(String::from_str("LCL"), 1);
        table.insert(String::from_str("ARG"), 2);
        table.insert(String::from_str("THIS"), 3);
        table.insert(String::from_str("THAT"), 4);
        table.insert(String::from_str("R0"), 0);
        table.insert(String::from_str("R1"), 1);
        table.insert(String::from_str("R2"), 2);
        table.insert(String::from_str("R3"), 3);
        table.insert(String::from_str("R4"), 4);
        table.insert(String::from_str("R5"), 5);
        table.insert(String::from_str("R6"), 6);
        table.insert(String::from_str("R7"), 7);
        table.insert(String::from_str("R8"), 8);
        table.insert(String::from_str("R9"), 9);
        table.insert(String::from_str("R10"), 10);
        table.insert(String::from_str("R11"), 11);
        table.insert(String::from_str("R12"), 12);
        table.insert(String::from_str("R13"), 13);
        table.insert(String::from_str("R14"), 14);
        table.insert(String::from_str("R15"), 15);
        table.insert(String::from_str("SCREEN"), 16384);
        table.insert(String::from_str("KBD"), 24576);
        SymbolTable { table, ram_address: FIRST_VARIABLE_ADDRESS, rom_address: 0 }
    }

    /// When provided with a symbol, references the SymbolTable and returns an option containing
    /// the associated ROM/RAM address.  Returns None if the symbol is not found in the
    /// SymbolTable.
    pub fn get_address(&self, symbol: &str) -> (address: Option<u16>)
        ensures
            address == self@.get(symbol@),
    {
        match self.table.get(symbol) {
            Some(address) => Some(*address),
            None => None,
        }
    }

    /// The RAM address that the next new variable gets.
    pub fn ram_address(&self) -> (address: u16)
        ensures
            address == self@.ram_address,
    {
        self.ram_address
    }

    /// The ROM address that the next label gets.
    pub fn rom_address(&self) -> (address: u16)
        ensures
            address == self@.rom_address,
    {
        self.rom_address
    }

    /// Increments the next available RAM address by 1 and returns Ok(0).
    ///
    /// If all the RAM addresses have already been used, a 'RAMFull' error will be returned
    /// and the table stays as it is.
    pub fn inc_ram_address(&mut self) -> (done: Result<u8, Error>)
        requires
            old(self).wf(),
        ensures
            final(self).wf(),
            match old(self)@.inc_ram_address() {
                Ok(symbols) => done == Ok::<u8, Error>(0) && final(self)@ == symbols,
                Err(kind) => failed_with(done, kind) && final(self)@ == old(self)@,
            },
    {
        if self.ram_address == LAST_VARIABLE_ADDRESS {
            return Err(Error::new(ErrorKind::RAMFull));
        }
        self.ram_address += 1;
        Ok(0)
    }

    /// Increment next ROM address by 1.
    ///
    /// The address is counted in sixteen bits and cannot be moved past
    /// `MAX_INSTRUCTIONS`.
    pub fn inc_rom_address(&mut self)
        requires
            old(self).wf(),
            old(self)@.rom_address < MAX_INSTRUCTIONS,
        ensures
            final(self).wf(),
            final(self)@ == old(self)@.inc_rom_address(),
    {
        self.rom_address += 1;
    }

    /// Takes an &str variable symbol as an argument and inserts it into the SymbolTable with the
    /// next available RAM address, which then moves on by one.
    ///
    /// Returns a result containing the RAM address.  It will return an error if the symbol already
    /// exists in the SymbolTable, or if no RAM address is left for it; the table
    /// then stays as it is.
    pub fn insert_variable(&mut self, symbol: &str) -> (address: Result<u16, Error>)
        requires
            old(self).wf(),
        ensures
            final(self).wf(),
            match old(self)@.insert_variable(symbol@) {
                Ok((symbols, at)) => address == Ok::<u16, Error>(at) && final(self)@ == symbols,
                Err(kind) => failed_with(address, kind) && final(self)@ == old(self)@,
            },
    {
        if self.ram_address == LAST_VARIABLE_ADDRESS && !self.table.contains_key(symbol) {
            return Err(Error::new(ErrorKind::RAMFull));
        }
        let address = self.insert(symbol, self.ram_address)?;
        self.ram_address += 1;
        Ok(address)
    }

    /// Takes an &str label symbol as an argument and inserts it into the SymbolTable with the
    /// next ROM address.
    ///
    /// Returns a result containing the ROM address.  It will return an error if the symbol already
    /// exists in the SymbolTable, or if the next ROM address does not fit in 15 bits;
    /// the table then stays as it is.
    pub fn insert_label(&mut self, symbol: &str) -> (address: Result<u16, Error>)
        requires
            old(self).wf(),
        ensures
            final(self).wf(),
            match old(self)@.insert_label(symbol@) {
                Ok((symbols, at)) => address == Ok::<u16, Error>(at) && final(self)@ == symbols,
                Err(kind) => failed_with(address, kind) && final(self)@ == old(self)@,
            },
    {
        if self.rom_address > MAX_ADDRESS && !self.table.contains_key(symbol) {
            return Err(Error::new(ErrorKind::ROMFull));
        }
        self.insert(symbol, self.rom_address)
    }

    /// Enters `symbol` with `address`, unless the table has the symbol already.
    fn insert(&mut self, symbol: &str, address: u16) -> (inserted: Result<u16, Error>)
        requires
            old(self).wf(),
            address <= MAX_ADDRESS || old(self)@.entries.contains_key(symbol@),
        ensures
            final(self).wf(),
            final(self)@.ram_address == old(self)@.ram_address,
            final(self)@.rom_address == old(self)@.rom_address,
            if old(self)@.entries.contains_key(symbol@) {
                &&& failed_with(inserted, ErrorKind::SymbolExists)
                &&& final(self)@ == old(self)@
            } else {
                &&& inserted == Ok::<u16, Error>(address)
                &&& final(self)@.entries == old(self)@.entries.insert(symbol@, address)
            },
    {
        if self.table.contains_key(symbol) {
            Err(Error::new(ErrorKind::SymbolExists))
        } else {
            self.table.insert(String::from_str(symbol), address);
            Ok(address)
        }
    }
}

/// Entering a label keeps the symbol table well formed and keeps every entry
/// that the table had: no name is entered twice, and none gets another
/// address.
pub proof fn lemma_insert_label_keeps_entries(symbols: Symbols, name: Seq<char>)
    requires
        symbols.wf(),
        symbols.insert_label(name) is Ok,
    ensures
        !symbols.entries.contains_key(name),
        symbols.insert_label(name)->Ok_0.0.wf(),
        symbols.entries.submap_of(symbols.insert_label(name)->Ok_0.0.entries),
{
    let next = symbols.insert_label(name)->Ok_0.0;
    assert forall|other: Seq<char>| #[trigger]
        next.entries.contains_key(other) implies next.entries[other] <= MAX_ADDRESS by {
        if other != name {
            assert(symbols.entries.contains_key(other));
        }
    }
}

/// Entering a variable keeps the symbol table well formed and keeps every
/// entry that the table had: no name is entered twice, and none gets another
/// address.
pub proof fn lemma_insert_variable_keeps_entries(symbols: Symbols, name: Seq<char>)
    requires
        symbols.wf(),
        symbols.insert_variable(name) is Ok,
    ensures
        !symbols.entries.contains_key(name),
        symbols.insert_variable(name)->Ok_0.0.wf(),
        symbols.entries.submap_of(symbols.insert_variable(name)->Ok_0.0.entries),
{
    let next = symbols.insert_variable(name)->Ok_0.0;
    assert forall|other: Seq<char>| #[trigger]
        next.entries.contains_key(other) implies next.entries[other] <= MAX_ADDRESS by {
        if other != name {
            assert(symbols.entries.contains_key(other));
        }
    }
}

/// The table as it is created is well formed.
pub proof fn lemma_initial_wf()
    ensures
        Symbols::initial().wf(),
{
}

/// The predefined names, entry by entry: each name is in the table with the
/// address listed here.
pub proof fn lemma_predefined()
    ensures
        predefined().contains_key("SP"@) && predefined()["SP"@] == 0,
        predefined().contains_key("LCL"@) && predefined()["LCL"@] == 1,
        predefined().contains_key("ARG"@) && predefined()["ARG"@] == 2,
        predefined().contains_key("THIS"@) && predefined()["THIS"@] == 3,
        predefined().contains_key("THAT"@) && predefined()["THAT"@] == 4,
        predefined().contains_key("R0"@) && predefined()["R0"@] == 0,
        predefined().contains_key("R1"@) && predefined()["R1"@] == 1,
        predefined().contains_key("R2"@) && predefined()["R2"@] == 2,
        predefined().contains_key("R3"@) && predefined()["R3"@] == 3,
        predefined().contains_key("R4"@) && predefined()["R4"@] == 4,
        predefined().contains_key("R5"@) && predefined()["R5"@] == 5,
        predefined().contains_key("R6"@) && predefined()["R6"@] == 6,
        predefined().contains_key("R7"@) && predefined()["R7"@] == 7,
        predefined().contains_key("R8"@) && predefined()["R8"@] == 8,
        predefined().contains_key("R9"@) && predefined()["R9"@] == 9,
        predefined().contains_key("R10"@) && predefined()["R10"@] == 10,
        predefined().contains_key("R11"@) && predefined()["R11"@] == 11,
        predefined().contains_key("R12"@) && predefined()["R12"@] == 12,
        predefined().contains_key("R13"@) && predefined()["R13"@] == 13,
        predefined().contains_key("R14"@) && predefined()["R14"@] == 14,
        predefined().contains_key("R15"@) && predefined()["R15"@] == 15,
        predefined().contains_key("SCREEN"@) && predefined()["SCREEN"@] == 16384,
        predefined().contains_key("KBD"@) && predefined()["KBD"@] == 24576,
{
    reveal_strlit("SP");
    reveal_strlit("LCL");
    reveal_strlit("ARG");
    reveal_strlit("THIS");
    reveal_strlit("THAT");
    reveal_strlit("R0");
    reveal_strlit("R1");
    reveal_strlit("R2");
    reveal_strlit("R3");
    reveal_strlit("R4");
    reveal_strlit("R5");
    reveal_strlit("R6");
    reveal_strlit("R7");
    reveal_strlit("R8");
    reveal_strlit("R9");
    reveal_strlit("R10");
    reveal_strlit("R11");
    reveal_strlit("R12");
    reveal_strlit("R13");
    reveal_strlit("R14");
    reveal_strlit("R15");
    reveal_strlit("SCREEN");
    reveal_strlit("KBD");
    assert("SP"@.len() == 2 && "SP"@[0] == 'S' && "SP"@[1] == 'P');
    assert("LCL"@.len() == 3 && "LCL"@[0] == 'L' && "LCL"@[1] == 'C' && "LCL"@[2] == 'L');
    assert("ARG"@.len() == 3 && "ARG"@[0] == 'A' && "ARG"@[1] == 'R' && "ARG"@[2] == 'G');
    assert("THIS"@.len() == 4 && "THIS"@[0] == 'T' && "THIS"@[1] == 'H' && "THIS"@[2] == 'I'
        && "THIS"@[3] == 'S');
    assert("THAT"@.len() == 4 && "THAT"@[0] == 'T' && "THAT"@[1] == 'H' && "THAT"@[2] == 'A'
        && "THAT"@[3] == 'T');
    assert("R0"@.len() == 2 && "R0"@[0] == 'R' && "R0"@[1] == '0');
    assert("R1"@.len() == 2 && "R1"@[0] == 'R' && "R1"@[1] == '1');
    assert("R2"@.len() == 2 && "R2"@[0] == 'R' && "R2"@[1] == '2');
    assert("R3"@.len() == 2 && "R3"@[0] == 'R' && "R3"@[1] == '3');
    assert("R4"@.len() == 2 && "R4"@[0] == 'R' && "R4"@[1] == '4');
    assert("R5"@.len() == 2 && "R5"@[0] == 'R' && "R5"@[1] == '5');
    assert("R6"@.len() == 2 && "R6"@[0] == 'R' && "R6"@[1] == '6');
    assert("R7"@.len() == 2 && "R7"@[0] == 'R' && "R7"@[1] == '7');
    assert("R8"@.len() == 2 && "R8"@[0] == 'R' && "R8"@[1] == '8');
    assert("R9"@.len() == 2 && "R9"@[0] == 'R' && "R9"@[1] == '9');
    assert("R10"@.len() == 3 && "R10"@[0] == 'R' && "R10"@[1] == '1' && "R10"@[2] == '0');
    assert("R11"@.len() == 3 && "R11"@[0] == 'R' && "R11"@[1] == '1' && "R11"@[2] == '1');
    assert("R12"@.len() == 3 && "R12"@[0] == 'R' && "R12"@[1] == '1' && "R12"@[2] == '2');
    assert("R13"@.len() == 3 && "R13"@[0] == 'R' && "R13"@[1] == '1' && "R13"@[2] == '3');
    assert("R14"@.len() == 3 && "R14"@[0] == 'R' && "R14"@[1] == '1' && "R14"@[2] == '4');
    assert("R15"@.len() == 3 && "R15"@[0] == 'R' && "R15"@[1] == '1' && "R15"@[2] == '5');
    assert("SCREEN"@.len() == 6 && "SCREEN"@[0] == 'S' && "SCREEN"@[1] == 'C'
        && "SCREEN"@[2] == 'R' && "SCREEN"@[3] == 'E' && "SCREEN"@[4] == 'E'
        && "SCREEN"@[5] == 'N');
    assert("KBD"@.len() == 3 && "KBD"@[0] == 'K' && "KBD"@[1] == 'B' && "KBD"@[2] == 'D');
}

} // verus!
