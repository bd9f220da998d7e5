//! Reading a golden-output file: blocks of expected output, each headed
//! by a line naming its data file between doubled braces.

use vstd::prelude::*;
use vstd::string::StringExecFns;
use crate::strutil::{to_chars, push_char, range_to_string};

verus! {

/// One expected block: the data file to run against, and the output the
/// run should print.
#[derive(Debug, Clone, PartialEq)]
pub struct DesiredOutput {
    pub data_file_name: String,
    pub output: String,
}

/// Splits a golden-output file into its expected blocks.  Each line of
/// the form `{{ name }}` starts a block; every other line belongs to the
/// block before it, with a newline appended.  Text before the first
/// header yields nothing.
pub fn parse_output_file(source: &str) -> (r: Option<Vec<DesiredOutput>>) {
    let chars = to_chars(source);
    let n = chars.len();
    let mut result: Vec<DesiredOutput> = Vec::new();
    let mut i: usize = 0;
    while i < n
        invariant
            n == chars@.len(),
            i <= n,
        decreases n - i,
    {
        let mut j = i;
        while j < n && chars[j] != '\n'
            invariant
                n == chars@.len(),
                i <= j <= n,
            decreases n - j,
        {
            j = j + 1;
        }
        let line = range_to_string(&chars, i, j);
        let lc = to_chars(line.as_str());
        let m = lc.len();
        let is_header = m >= 6 && lc[0] == '{' && lc[1] == '{' && lc[2] == ' ' && lc[m - 3] == ' '
            && lc[m - 2] == '}' && lc[m - 1] == '}';
        if is_header {
            let name = range_to_string(&lc, 3, m - 3);
            result.push(DesiredOutput { data_file_name: name, output: String::new() });
        } else {
            let k = result.len();
            if k == 0 {
                return None;
            }
            match result.pop() {
                Some(mut last) => {
                    let mut out = last.output;
                    out.append(line.as_str());
                    push_char(&mut out, '\n');
                    last.output = out;
                    result.push(last);
                },
                None => {
                    return None;
                },
            }
        }
        i = if j < n {
            j + 1
        } else {
            j
        };
    }
    Some(result)
}

} // verus!
