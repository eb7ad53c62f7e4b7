//! Classifying an uploaded file by its extension.
//!
//! The byte-to-text converters themselves (PDF, DOCX) are format adapters
//! outside the library; what the library owns is the dispatch rule: which
//! converter a filename selects, ASCII case-insensitively.

use vstd::prelude::*;

use crate::text::chars_of;

verus! {

use vstd::string::StringExecFns;

/// The converter a filename selects.
#[derive(Clone, Copy, Debug, PartialEq, Eq, Structural)]
pub enum DocumentFormat {
    Pdf,
    Docx,
    PlainText,
    Unsupported,
}

/// The index of the last `.` strictly before `i`, or `-1`.
pub open spec fn rfind_dot(s: Seq<char>, i: int) -> int
    decreases i,
{
    if i <= 0 {
        -1
    } else if s[i - 1] == '.' {
        i - 1
    } else {
        rfind_dot(s, i - 1)
    }
}

/// The extension of a filename: what follows the last dot, provided the dot
/// is not the leading character; a dotless or hidden name has none.
pub open spec fn extension_of(name: Seq<char>) -> Seq<char> {
    let d = rfind_dot(name, name.len() as int);
    if d <= 0 {
        Seq::empty()
    } else {
        name.subrange(d + 1, name.len() as int)
    }
}

/// An ASCII letter lowered; anything else unchanged.
pub open spec fn lower_ascii(c: char) -> char {
    if 'A' <= c && c <= 'Z' {
        ((((c as u32) + 32) as u8) as char)
    } else {
        c
    }
}

/// The extension lowered, ASCII case-insensitively.
pub open spec fn lower_extension_of(name: Seq<char>) -> Seq<char> {
    extension_of(name).map_values(|c: char| lower_ascii(c))
}

/// Which converter the filename selects.
pub open spec fn spec_classify(name: Seq<char>) -> DocumentFormat {
    let e = lower_extension_of(name);
    if e == "pdf"@ {
        DocumentFormat::Pdf
    } else if e == "docx"@ {
        DocumentFormat::Docx
    } else if e == "txt"@ || e == "md"@ || e == "json"@ || e == "csv"@ {
        DocumentFormat::PlainText
    } else {
        DocumentFormat::Unsupported
    }
}

proof fn lemma_rfind_dot_range(s: Seq<char>, i: int)
    requires
        0 <= i <= s.len(),
    ensures
        -1 <= rfind_dot(s, i) < i,
    decreases i,
{
    if i > 0 && s[i - 1] != '.' {
        lemma_rfind_dot_range(s, i - 1);
    }
}

/// Classifies a filename by its extension: `pdf` and `docx` select the
/// format converters, plain-text extensions pass through, anything else is
/// unsupported.
pub fn classify_format(filename: &str) -> (r: DocumentFormat)
    ensures
        r == spec_classify(filename@),
{
    let cs = chars_of(filename);
    let n = cs.len();
    let ghost s = filename@;

    // Find the last dot.
    let mut i: usize = n;
    let mut dot: usize = 0;
    let mut found = false;
    while i > 0
        invariant_except_break
            !found,
        invariant
            i <= n,
            n == s.len(),
            cs@ == s,
            found ==> dot < n && rfind_dot(s, n as int) == dot,
            !found ==> rfind_dot(s, n as int) == rfind_dot(s, i as int),
        ensures
            found ==> dot < n && rfind_dot(s, n as int) == dot,
            !found ==> rfind_dot(s, n as int) == -1,
        decreases i,
    {
        if cs[i - 1] == '.' {
            dot = i - 1;
            found = true;
            proof {
                assert(rfind_dot(s, i as int) == i - 1);
            }
            break ;
        }
        i = i - 1;
    }
    proof {
        if !found {
            assert(rfind_dot(s, 0) == -1);
        }
        lemma_rfind_dot_range(s, n as int);
    }

    // Extract and lowercase the extension.
    let mut ext = String::new();
    if found && dot > 0 {
        let mut j: usize = dot + 1;
        proof {
            assert(ext@ =~= lower_extension_of(s).take(0));
            assert(extension_of(s) =~= s.subrange(dot + 1, n as int));
        }
        while j < n
            invariant
                dot + 1 <= j <= n,
                n == s.len(),
                cs@ == s,
                dot < n,
                rfind_dot(s, n as int) == dot,
                0 < dot,
                ext@ == lower_extension_of(s).take(j - dot - 1),
            decreases n - j,
        {
            let c = cs[j];
            let u = c as u32;
            let low: char = if 65 <= u && u <= 90 {
                ((u + 32) as u8) as char
            } else {
                c
            };
            proof {
                assert(low == lower_ascii(s[j as int]));
                assert(lower_extension_of(s)[j - dot - 1] == lower_ascii(s[j as int]));
            }
            crate::text::push_char(&mut ext, low);
            proof {
                assert(ext@ =~= lower_extension_of(s).take(j - dot));
            }
            j = j + 1;
        }
        proof {
            assert(lower_extension_of(s).take(n - dot - 1) =~= lower_extension_of(s));
        }
    } else {
        proof {
            assert(extension_of(s) =~= Seq::<char>::empty());
            assert(ext@ =~= lower_extension_of(s));
        }
    }

    if ext == String::from_str("pdf") {
        DocumentFormat::Pdf
    } else if ext == String::from_str("docx") {
        DocumentFormat::Docx
    } else if ext == String::from_str("txt") || ext == String::from_str("md") || ext
        == String::from_str("json") || ext == String::from_str("csv") {
        DocumentFormat::PlainText
    } else {
        DocumentFormat::Unsupported
    }
}

} // verus!
