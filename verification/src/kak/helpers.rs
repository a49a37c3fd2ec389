//! Parsing helpers for the Kakoune integration that need no access to
//! Kakoune itself.
use vstd::prelude::*;

use crate::error::Error;
use crate::kak::io::{
    cursor_of, next_index, next_selection, parse_cursor, parse_range, parse_range_spec,
    previous_index, previous_selection, range_of, range_spec_of,
};
use crate::text::{parse_usize, parsed_usize};

verus! {

/// Parses the values that Kakoune hands over.
pub struct Helper;

impl Helper {
    /// A helper.
    pub fn new() -> Self {
        Helper
    }

    /// Parses a non-negative number.
    pub fn parse_usize(&self, v: &str) -> (r: Result<usize, Error>)
        ensures
            match parsed_usize(v@) {
                Some(n) => r == Ok::<usize, Error>(n),
                None => r matches Err(Error::InvalidNumber(s)) && s@ == v@,
            },
    {
        match parse_usize(v) {
            Some(n) => Ok(n),
            None => Err(Error::InvalidNumber(String::from_str(v))),
        }
    }

    /// Parses a position `line.column`.
    pub fn parse_cursor(&self, pos: &str) -> (r: Result<(usize, usize), Error>)
        ensures
            r == cursor_of(pos@),
    {
        parse_cursor(pos)
    }

    /// Parses a range spec: a timestamp, then ranges.
    pub fn parse_range_spec(&self, range_spec: &str) -> (r: Result<Vec<(usize, usize, usize)>, Error>)
        ensures
            match range_spec_of(range_spec@) {
                Ok(rs) => r matches Ok(v) && v@ == rs,
                Err(e) => r == Err::<Vec<(usize, usize, usize)>, Error>(e),
            },
    {
        parse_range_spec(range_spec)
    }

    /// Parses a range `l1.c1,l2.c2|face` into line, first and last column.
    pub fn parse_range(&self, range: &str) -> (r: Result<(usize, usize, usize), Error>)
        ensures
            r == range_of(range@),
    {
        parse_range(range)
    }

    /// The last range that ends before the cursor, else the last range.
    pub fn get_previous_selection<'a>(
        &self,
        cursor: (usize, usize),
        ranges: &'a [(usize, usize, usize)],
    ) -> (r: Option<&'a (usize, usize, usize)>)
        ensures
            match previous_index(ranges@, cursor) {
                Some(i) => r == Some(&ranges@[i]),
                None => r is None,
            },
    {
        previous_selection(cursor, ranges)
    }

    /// The first range that ends after the cursor, else the first range.
    pub fn get_next_selection<'a>(
        &self,
        cursor: (usize, usize),
        ranges: &'a [(usize, usize, usize)],
    ) -> (r: Option<&'a (usize, usize, usize)>)
        ensures
            match next_index(ranges@, cursor) {
                Some(i) => r == Some(&ranges@[i]),
                None => r is None,
            },
    {
        next_selection(cursor, ranges)
    }
}

} // verus!
