//! Positional arguments that both command languages share.
use crate::number;
use crate::number::{decimal_text, parse_u32, parse_u8};
use crate::registers;
use crate::registers::{bauds_text, is_valid_baud};
use crate::text;
use crate::text::{concat3, same};
use vstd::prelude::*;
use vstd::string::*;

verus! {

/// Whether `word` is one of the arguments.
pub fn has_arg(args: &[String], word: &str) -> (r: bool)
    ensures
        r == text::views(args@).contains(word@),
{
    let ghost all = text::views(args@);
    let mut i: usize = 0;
    while i < args.len()
        invariant
            i <= args.len(),
            all == text::views(args@),
            forall|j: int| 0 <= j < i ==> all[j] != word@,
        decreases args.len() - i,
    {
        if same(args[i].as_str(), word) {
            assert(all[i as int] == word@);
            return true;
        }
        i = i + 1;
    }
    false
}

/// Whether the arguments ask for help anywhere.
pub open spec fn wants_help(args: Seq<Seq<char>>) -> bool {
    args.contains("help"@) || args.contains("--help"@) || args.contains("-h"@)
}

/// Whether the arguments ask for help anywhere.
pub fn asks_for_help(args: &[String]) -> (r: bool)
    ensures
        r == wants_help(text::views(args@)),
{
    has_arg(args, "help") || has_arg(args, "--help") || has_arg(args, "-h")
}

/// `baud <new>`: the new baud rate, one that the device supports.
pub open spec fn baud_arg(words: Seq<Seq<char>>) -> Result<u32, Seq<char>> {
    if words.len() < 2 {
        Err("baud requires a value, e.g. `baud 921600`"@)
    } else {
        match number::parse_number(words[1], 10, u32::MAX as int) {
            None => Err("baud must be a number"@),
            Some(b) => if registers::bauds().contains(b as u32) {
                Ok(b as u32)
            } else {
                Err(
                    number::decimal(b as nat) + " is not a valid VN-100 baud; choose one of "@
                        + number::number_list(registers::bauds()),
                )
            },
        }
    }
}

/// Parses the argument of `baud`.
pub fn parse_baud_arg(words: &[String]) -> (r: Result<u32, String>)
    ensures
        text::message(r) == baud_arg(text::views(words@)),
{
    if words.len() < 2 {
        return Err("baud requires a value, e.g. `baud 921600`".to_string());
    }
    match parse_u32(words[1].as_str()) {
        None => Err("baud must be a number".to_string()),
        Some(b) => if is_valid_baud(b) {
            Ok(b)
        } else {
            let d = decimal_text(b as u64);
            let all = bauds_text();
            Err(
                concat3(
                    d.as_str(),
                    " is not a valid VN-100 baud; choose one of ",
                    all.as_str(),
                ),
            )
        },
    }
}

/// `rrg <id>`: the register to read.
pub open spec fn rrg_arg(words: Seq<Seq<char>>) -> Result<u8, Seq<char>> {
    if words.len() < 2 {
        Err("rrg requires a register id, e.g. `rrg 1`"@)
    } else {
        match number::parse_number(words[1], 10, 255) {
            None => Err("register id must be 0-255"@),
            Some(id) => Ok(id as u8),
        }
    }
}

/// Parses the argument of `rrg`.
pub fn parse_rrg_arg(words: &[String]) -> (r: Result<u8, String>)
    ensures
        text::message(r) == rrg_arg(text::views(words@)),
{
    if words.len() < 2 {
        return Err("rrg requires a register id, e.g. `rrg 1`".to_string());
    }
    match parse_u8(words[1].as_str()) {
        None => Err("register id must be 0-255".to_string()),
        Some(id) => Ok(id),
    }
}

/// `wrg <id> <value>...`: the register to write and its values.
pub open spec fn wrg_arg(words: Seq<Seq<char>>) -> Result<(u8, Seq<Seq<char>>), Seq<char>> {
    if words.len() < 2 {
        Err("wrg requires a register id, e.g. `wrg 7 40`"@)
    } else {
        match number::parse_number(words[1], 10, 255) {
            None => Err("register id must be 0-255"@),
            Some(id) => if words.len() == 2 {
                Err("wrg requires at least one value, e.g. `wrg 7 40`"@)
            } else {
                Ok((id as u8, words.skip(2)))
            },
        }
    }
}

/// Parses the arguments of `wrg`.
pub fn parse_wrg_arg(words: &[String]) -> (r: Result<(u8, Vec<String>), String>)
    ensures
        match r {
            Ok(p) => wrg_arg(text::views(words@)) == Ok::<(u8, Seq<Seq<char>>), Seq<char>>(
                (p.0, text::views(p.1@)),
            ),
            Err(e) => wrg_arg(text::views(words@)) == Err::<(u8, Seq<Seq<char>>), Seq<char>>(e@),
        },
{
    if words.len() < 2 {
        return Err("wrg requires a register id, e.g. `wrg 7 40`".to_string());
    }
    let id: u8 = match parse_u8(words[1].as_str()) {
        None => return Err("register id must be 0-255".to_string()),
        Some(id) => id,
    };
    if words.len() == 2 {
        return Err("wrg requires at least one value, e.g. `wrg 7 40`".to_string());
    }
    let mut params: Vec<String> = Vec::new();
    let mut i: usize = 2;
    while i < words.len()
        invariant
            2 <= i <= words.len(),
            params@.len() == i - 2,
            forall|j: int| 0 <= j < i - 2 ==> params@[j]@ == words@[j + 2]@,
        decreases words.len() - i,
    {
        params.push(words[i].clone());
        i = i + 1;
    }
    assert(text::views(params@) =~= text::views(words@).skip(2));
    Ok((id, params))
}

} // verus!
