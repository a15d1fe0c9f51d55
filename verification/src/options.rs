//! The options a compile run is started with.

use vstd::prelude::*;
use vstd::string::StrSliceExecFns;

verus! {

/// The backend that runs the compiled circuit.
#[derive(Clone, Copy, Debug, PartialEq, Eq, Structural)]
pub enum BackendVariant {
    Direct,
    FPGA,
}

impl Default for BackendVariant {
    fn default() -> (variant: BackendVariant)
        ensures
            variant == BackendVariant::Direct,
    {
        BackendVariant::Direct
    }
}

/// The switches of a compile run.
#[derive(Clone, Copy, Debug, PartialEq, Eq, Structural)]
pub struct CompilerOptions {
    /// Run the optional passes.
    pub optimize: bool,
    /// Export the graph to a binary format.
    pub export: bool,
    /// Only reflect interface blocks on flush.
    pub io_only: bool,
    /// Run block updates after a reset.
    pub update: bool,
    /// Emit the graph as a DOT file.
    pub export_dot_graph: bool,
    /// Treat dust dots as outputs.
    pub wire_dot_out: bool,
    /// Compile only the selected region.
    pub selection: bool,
    /// Hand the hardware description to the synthesizer.
    pub compile_verilog: bool,
    /// The backend to run on.
    pub backend_variant: BackendVariant,
}


impl Default for CompilerOptions {
    fn default() -> (options: CompilerOptions)
        ensures
            options == CompilerOptions::spec_default(),
    {
        CompilerOptions {
            optimize: false,
            export: false,
            io_only: false,
            update: false,
            export_dot_graph: false,
            wire_dot_out: false,
            selection: false,
            compile_verilog: false,
            backend_variant: BackendVariant::Direct,
        }
    }
}

/// Whether a character separates options: any white space, as Unicode lists it.
pub open spec fn is_space(c: char) -> bool {
    let u = c as u32;
    (0x09 <= u <= 0x0D) || u == 0x20 || u == 0x85 || u == 0xA0 || u == 0x1680 || (0x2000 <= u
        <= 0x200A) || u == 0x2028 || u == 0x2029 || u == 0x202F || u == 0x205F || u == 0x3000
}

/// The number of the lower-case form of a letter from A to Z; of any other character its
/// own number.
pub open spec fn lower(c: char) -> u32 {
    if 65 <= c as u32 <= 90 {
        (c as u32 + 32) as u32
    } else {
        c as u32
    }
}

/// Whether a token is one of the long flags.
pub open spec fn long_known(token: Seq<char>) -> bool {
    token == "--optimize"@ || token == "--export"@ || token == "--io-only"@ || token == "--update"@
        || token == "--export-dot"@ || token == "--wire-dot-out"@ || token == "--selection"@ || token
        == "--fpga"@ || token == "--compile"@
}

/// Whether a character is one of the short flags, in either case.
pub open spec fn short_known(letter: char) -> bool {
    let c = lower(letter);
    c == 111 || c == 101 || c == 105 || c == 117 || c == 100 || c == 115 || c == 102 || c == 99
}

/// The options after a long flag. An unknown flag changes nothing.
pub open spec fn with_long(options: CompilerOptions, token: Seq<char>) -> CompilerOptions {
    if token == "--optimize"@ {
        CompilerOptions { optimize: true, ..options }
    } else if token == "--export"@ {
        CompilerOptions { export: true, ..options }
    } else if token == "--io-only"@ {
        CompilerOptions { io_only: true, ..options }
    } else if token == "--update"@ {
        CompilerOptions { update: true, ..options }
    } else if token == "--export-dot"@ {
        CompilerOptions { export_dot_graph: true, ..options }
    } else if token == "--wire-dot-out"@ {
        CompilerOptions { wire_dot_out: true, ..options }
    } else if token == "--selection"@ {
        CompilerOptions { selection: true, ..options }
    } else if token == "--fpga"@ {
        CompilerOptions { backend_variant: BackendVariant::FPGA, ..options }
    } else if token == "--compile"@ {
        CompilerOptions { compile_verilog: true, ..options }
    } else {
        options
    }
}

/// The options after one letter of a cluster of short flags, in either case. An unknown
/// letter changes nothing.
pub open spec fn with_short(options: CompilerOptions, letter: char) -> CompilerOptions {
    let c = lower(letter);
    if c == 111 {
        CompilerOptions { optimize: true, ..options }
    } else if c == 101 {
        CompilerOptions { export: true, ..options }
    } else if c == 105 {
        CompilerOptions { io_only: true, ..options }
    } else if c == 117 {
        CompilerOptions { update: true, ..options }
    } else if c == 100 {
        CompilerOptions { wire_dot_out: true, ..options }
    } else if c == 115 {
        CompilerOptions { selection: true, ..options }
    } else if c == 102 {
        CompilerOptions { backend_variant: BackendVariant::FPGA, ..options }
    } else if c == 99 {
        CompilerOptions { compile_verilog: true, ..options }
    } else {
        options
    }
}

/// The options after the letters of a token from the second character up to character `n`.
pub open spec fn with_cluster(options: CompilerOptions, token: Seq<char>, n: nat) -> CompilerOptions
    decreases n,
{
    if n <= 1 || n > token.len() {
        options
    } else {
        with_short(with_cluster(options, token, (n - 1) as nat), token[n - 1])
    }
}

/// Whether a token has the form of a long flag: it starts with two dashes.
pub open spec fn is_long(token: Seq<char>) -> bool {
    token.len() >= 2 && token[0] == '-' && token[1] == '-'
}

/// Whether a token has the form of a cluster of short flags: it starts with one dash.
pub open spec fn is_cluster(token: Seq<char>) -> bool {
    !is_long(token) && token.len() >= 1 && token[0] == '-'
}

/// The options after one token: a long flag where it starts with two dashes, a cluster
/// of short flags where it starts with one, and nothing else.
pub open spec fn with_token(options: CompilerOptions, token: Seq<char>) -> CompilerOptions {
    if is_long(token) {
        with_long(options, token)
    } else if is_cluster(token) {
        with_cluster(options, token, token.len())
    } else {
        options
    }
}

/// What was passed over among the letters of a cluster that starts at character `a` of a
/// line, up to its character `n`: each unknown letter, as the range of its one character.
pub open spec fn cluster_skips(token: Seq<char>, a: nat, n: nat) -> Seq<(usize, usize)>
    decreases n,
{
    if n <= 1 || n > token.len() {
        Seq::empty()
    } else {
        let before = cluster_skips(token, a, (n - 1) as nat);
        if short_known(token[n - 1]) {
            before
        } else {
            before.push(((a + n - 1) as usize, (a + n) as usize))
        }
    }
}

/// What was passed over in the token that takes the characters from `a` up to `e` of a
/// line: the whole token where it is an unknown long flag or no flag at all, and each
/// unknown letter of a cluster.
pub open spec fn token_skips(token: Seq<char>, a: nat) -> Seq<(usize, usize)> {
    if is_long(token) {
        if long_known(token) {
            Seq::empty()
        } else {
            seq![(a as usize, (a + token.len()) as usize)]
        }
    } else if is_cluster(token) {
        cluster_skips(token, a, token.len())
    } else {
        seq![(a as usize, (a + token.len()) as usize)]
    }
}

/// What the first `n` characters of a line gave: the options, the ranges that were passed
/// over, and where the token begins that character `n` would go on with.
pub open spec fn scanned(s: Seq<char>, n: nat) -> (CompilerOptions, Seq<(usize, usize)>, Option<nat>)
    decreases n,
{
    if n == 0 || n > s.len() {
        (CompilerOptions::spec_default(), Seq::empty(), None)
    } else {
        let (options, skips, start) = scanned(s, (n - 1) as nat);
        if is_space(s[n - 1]) {
            match start {
                Some(a) => (
                    with_token(options, s.subrange(a as int, n - 1)),
                    skips + token_skips(s.subrange(a as int, n - 1), a),
                    None,
                ),
                None => (options, skips, None),
            }
        } else {
            match start {
                Some(a) => (options, skips, Some(a)),
                None => (options, skips, Some((n - 1) as nat)),
            }
        }
    }
}

/// The options that a line asks for: the tokens between the separators, one after the
/// other, each switching on what it names.
pub open spec fn parsed(s: Seq<char>) -> CompilerOptions {
    let (options, skips, start) = scanned(s, s.len());
    match start {
        Some(a) => with_token(options, s.subrange(a as int, s.len() as int)),
        None => options,
    }
}

/// The ranges of characters of a line that name no option, in their order.
pub open spec fn passed_over(s: Seq<char>) -> Seq<(usize, usize)> {
    let (options, skips, start) = scanned(s, s.len());
    match start {
        Some(a) => skips + token_skips(s.subrange(a as int, s.len() as int), a),
        None => skips,
    }
}

fn space(c: char) -> (is: bool)
    ensures
        is == is_space(c),
{
    let u: u32 = c as u32;
    (0x09 <= u && u <= 0x0D) || u == 0x20 || u == 0x85 || u == 0xA0 || u == 0x1680 || (0x2000 <= u
        && u <= 0x200A) || u == 0x2028 || u == 0x2029 || u == 0x202F || u == 0x205F || u == 0x3000
}

/// Whether the characters from `a` up to `e` spell `word`.
fn range_is(line: &str, a: usize, e: usize, word: &str) -> (same: bool)
    requires
        a <= e <= line@.len(),
    ensures
        same == (line@.subrange(a as int, e as int) == word@),
{
    let n = word.unicode_len();
    if n != e - a {
        return false;
    }
    let mut i: usize = 0;
    while i < n
        invariant
            a <= e <= line@.len(),
            n == word@.len(),
            n == e - a,
            i <= n,
            forall|k: int| 0 <= k < i ==> line@[a + k] == word@[k],
        decreases n - i,
    {
        if line.get_char(a + i) != word.get_char(i) {
            assert(line@.subrange(a as int, e as int)[i as int] != word@[i as int]);
            return false;
        }
        i += 1;
    }
    assert(line@.subrange(a as int, e as int) =~= word@);
    true
}

fn apply_long(options: CompilerOptions, line: &str, a: usize, e: usize) -> (out: (CompilerOptions, bool))
    requires
        a <= e <= line@.len(),
    ensures
        out.0 == with_long(options, line@.subrange(a as int, e as int)),
        out.1 == long_known(line@.subrange(a as int, e as int)),
{
    let mut out = options;
    let mut known = true;
    if range_is(line, a, e, "--optimize") {
        out.optimize = true;
    } else if range_is(line, a, e, "--export") {
        out.export = true;
    } else if range_is(line, a, e, "--io-only") {
        out.io_only = true;
    } else if range_is(line, a, e, "--update") {
        out.update = true;
    } else if range_is(line, a, e, "--export-dot") {
        out.export_dot_graph = true;
    } else if range_is(line, a, e, "--wire-dot-out") {
        out.wire_dot_out = true;
    } else if range_is(line, a, e, "--selection") {
        out.selection = true;
    } else if range_is(line, a, e, "--fpga") {
        out.backend_variant = BackendVariant::FPGA;
    } else if range_is(line, a, e, "--compile") {
        out.compile_verilog = true;
    } else {
        known = false;
    }
    (out, known)
}

fn apply_short(options: CompilerOptions, letter: char) -> (out: (CompilerOptions, bool))
    ensures
        out.0 == with_short(options, letter),
        out.1 == short_known(letter),
{
    let u: u32 = letter as u32;
    let c: u32 = if 65 <= u && u <= 90 {
        u + 32
    } else {
        u
    };
    let mut out = options;
    let mut known = true;
    if c == 111 {
        out.optimize = true;
    } else if c == 101 {
        out.export = true;
    } else if c == 105 {
        out.io_only = true;
    } else if c == 117 {
        out.update = true;
    } else if c == 100 {
        out.wire_dot_out = true;
    } else if c == 115 {
        out.selection = true;
    } else if c == 102 {
        out.backend_variant = BackendVariant::FPGA;
    } else if c == 99 {
        out.compile_verilog = true;
    } else {
        known = false;
    }
    (out, known)
}

fn apply_token(
    options: CompilerOptions,
    skips: &mut Vec<(usize, usize)>,
    line: &str,
    a: usize,
    e: usize,
) -> (out: CompilerOptions)
    requires
        a < e <= line@.len(),
    ensures
        out == with_token(options, line@.subrange(a as int, e as int)),
        final(skips)@ == old(skips)@ + token_skips(line@.subrange(a as int, e as int), a as nat),
{
    let ghost token = line@.subrange(a as int, e as int);
    let first = line.get_char(a);
    if e - a >= 2 && first == '-' && line.get_char(a + 1) == '-' {
        let (out, known) = apply_long(options, line, a, e);
        if !known {
            skips.push((a, e));
        }
        assert(skips@ =~= old(skips)@ + token_skips(token, a as nat));
        out
    } else if first == '-' {
        let mut out = options;
        let mut i: usize = a + 1;
        assert(skips@ =~= old(skips)@ + cluster_skips(token, a as nat, 1));
        while i < e
            invariant
                a < i <= e <= line@.len(),
                token == line@.subrange(a as int, e as int),
                out == with_cluster(options, token, (i - a) as nat),
                skips@ == old(skips)@ + cluster_skips(token, a as nat, (i - a) as nat),
            decreases e - i,
        {
            let (next, known) = apply_short(out, line.get_char(i));
            out = next;
            if !known {
                skips.push((i, i + 1));
            }
            i += 1;
            assert(skips@ =~= old(skips)@ + cluster_skips(token, a as nat, (i - a) as nat));
        }
        out
    } else {
        skips.push((a, e));
        assert(skips@ =~= old(skips)@ + token_skips(token, a as nat));
        options
    }
}

impl CompilerOptions {
    /// Every switch off, and the direct backend.
    pub open spec fn spec_default() -> CompilerOptions {
        CompilerOptions {
            optimize: false,
            export: false,
            io_only: false,
            update: false,
            export_dot_graph: false,
            wire_dot_out: false,
            selection: false,
            compile_verilog: false,
            backend_variant: BackendVariant::Direct,
        }
    }

    /// Reads options from a line of text and reports what it passed over. Long flags
    /// (`--optimize`) and clusters of short flags (`-iou`, in either case) switch their
    /// options on. Anything else is passed over and comes back as a range of characters
    /// of the line: an unknown long flag, an unknown letter of a cluster, a token without
    /// a dash. Nothing makes the reading fail.
    pub fn parse_reporting(str: &str) -> (read: (CompilerOptions, Vec<(usize, usize)>))
        ensures
            read.0 == parsed(str@),
            read.1@ == passed_over(str@),
    {
        let len = str.unicode_len();
        let mut options = CompilerOptions::default();
        let mut skips: Vec<(usize, usize)> = Vec::new();
        let mut start: Option<usize> = None;
        let mut i: usize = 0;
        while i < len
            invariant
                len == str@.len(),
                i <= len,
                options == scanned(str@, i as nat).0,
                skips@ == scanned(str@, i as nat).1,
                match start {
                    Some(a) => scanned(str@, i as nat).2 == Some(a as nat) && a < i,
                    None => scanned(str@, i as nat).2 is None,
                },
            decreases len - i,
        {
            if space(str.get_char(i)) {
                match start {
                    Some(a) => {
                        options = apply_token(options, &mut skips, str, a, i);
                        start = None;
                    },
                    None => {},
                }
            } else {
                match start {
                    Some(_) => {},
                    None => {
                        start = Some(i);
                    },
                }
            }
            i += 1;
        }
        match start {
            Some(a) => {
                options = apply_token(options, &mut skips, str, a, len);
            },
            None => {},
        }
        (options, skips)
    }

    /// Reads options from a line of text. Long flags (`--optimize`) and clusters of short
    /// flags (`-iou`, in either case) switch their options on; anything else is passed
    /// over and never fails.
    pub fn parse(str: &str) -> (options: CompilerOptions)
        ensures
            options == parsed(str@),
    {
        Self::parse_reporting(str).0
    }

    /// The lines that show the options on the scoreboard: one for each switch that is on,
    /// and none at all for the hardware backend.
    pub open spec fn flag_lines(self) -> Seq<Seq<char>> {
        if self.backend_variant != BackendVariant::Direct {
            Seq::empty()
        } else {
            (if self.optimize {
                seq!["    §3- optimize"@]
            } else {
                Seq::empty()
            }) + (if self.export {
                seq!["    §3- export"@]
            } else {
                Seq::empty()
            }) + (if self.io_only {
                seq!["    §3- io only"@]
            } else {
                Seq::empty()
            }) + (if self.update {
                seq!["    §3- update"@]
            } else {
                Seq::empty()
            }) + (if self.wire_dot_out {
                seq!["    §3- wire dot out"@]
            } else {
                Seq::empty()
            }) + (if self.selection {
                seq!["    §3- selection only"@]
            } else {
                Seq::empty()
            })
        }
    }

    pub fn to_str_vec(&self) -> (flags: Vec<String>)
        ensures
            flags@.len() == self.flag_lines().len(),
            forall|i: int| 0 <= i < flags@.len() ==> (#[trigger] flags@[i])@ == self.flag_lines()[i],
    {
        let mut flags: Vec<String> = Vec::new();
        let direct = match self.backend_variant {
            BackendVariant::Direct => true,
            BackendVariant::FPGA => false,
        };
        let ghost mut lines: Seq<Seq<char>> = Seq::empty();
        if direct {
            if self.optimize {
                flags.push("    §3- optimize".to_owned());
                proof {
                    lines = lines + seq!["    §3- optimize"@];
                }
            }
            assert(flags@.len() == lines.len() && forall|i: int|
                0 <= i < flags@.len() ==> (#[trigger] flags@[i])@ == lines[i]);
            if self.export {
                flags.push("    §3- export".to_owned());
                proof {
                    lines = lines + seq!["    §3- export"@];
                }
            }
            assert(flags@.len() == lines.len() && forall|i: int|
                0 <= i < flags@.len() ==> (#[trigger] flags@[i])@ == lines[i]);
            if self.io_only {
                flags.push("    §3- io only".to_owned());
                proof {
                    lines = lines + seq!["    §3- io only"@];
                }
            }
            assert(flags@.len() == lines.len() && forall|i: int|
                0 <= i < flags@.len() ==> (#[trigger] flags@[i])@ == lines[i]);
            if self.update {
                flags.push("    §3- update".to_owned());
                proof {
                    lines = lines + seq!["    §3- update"@];
                }
            }
            assert(flags@.len() == lines.len() && forall|i: int|
                0 <= i < flags@.len() ==> (#[trigger] flags@[i])@ == lines[i]);
            if self.wire_dot_out {
                flags.push("    §3- wire dot out".to_owned());
                proof {
                    lines = lines + seq!["    §3- wire dot out"@];
                }
            }
            assert(flags@.len() == lines.len() && forall|i: int|
                0 <= i < flags@.len() ==> (#[trigger] flags@[i])@ == lines[i]);
            if self.selection {
                flags.push("    §3- selection only".to_owned());
                proof {
                    lines = lines + seq!["    §3- selection only"@];
                }
            }
            assert(flags@.len() == lines.len() && forall|i: int|
                0 <= i < flags@.len() ==> (#[trigger] flags@[i])@ == lines[i]);
            assert(lines =~= self.flag_lines());
        }
        flags
    }

    /// The options of a circuit for the hardware backend: optimized, interface blocks
    /// only, the selection only, and handed to the synthesizer.
    pub fn fpga() -> (options: CompilerOptions)
        ensures
            options == (CompilerOptions {
                optimize: true,
                io_only: true,
                selection: true,
                compile_verilog: true,
                backend_variant: BackendVariant::FPGA,
                ..CompilerOptions::spec_default()
            }),
    {
        let mut co = CompilerOptions::default();
        co.backend_variant = BackendVariant::FPGA;
        co.compile_verilog = true;
        co.io_only = true;
        co.optimize = true;
        co.selection = true;
        co
    }
}

} // verus!
