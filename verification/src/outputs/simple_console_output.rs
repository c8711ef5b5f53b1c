//! A sink that writes every line to the console (stdout).

use std::io::Write;
use vstd::prelude::*;

use crate::outputs::TacitOutput;

verus! {

/// Writes all output to standard output.
pub struct SimpleConsoleOutput {}

impl core::default::Default for SimpleConsoleOutput {
    fn default() -> (r: SimpleConsoleOutput)
        ensures
            r == (SimpleConsoleOutput {  }),
    {
        SimpleConsoleOutput {  }
    }
}

impl SimpleConsoleOutput {
    /// Relies on `std::io::Stdout`'s `writeln!` to put the line and a
    /// terminator on standard output.
    #[verifier::external_body]
    fn stdout_write_line(line: &str) -> bool {
        writeln!(std::io::stdout(), "{}", line).is_ok()
    }

    /// Relies on `std::io::Stdout::flush`.
    #[verifier::external_body]
    fn stdout_flush() -> bool {
        std::io::stdout().flush().is_ok()
    }
}

impl TacitOutput for SimpleConsoleOutput {
    fn write_line(&mut self, line: &str) -> bool {
        SimpleConsoleOutput::stdout_write_line(line)
    }

    fn flush(&mut self) -> bool {
        SimpleConsoleOutput::stdout_flush()
    }
}

} // verus!
