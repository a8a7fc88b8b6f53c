//! Bundle files: the texts that report on writing, checking and fetching
//! them, and the reading of the ref listing that `git bundle list-heads`
//! prints (`<sha> <refname>` per line).

use vstd::prelude::*;
use crate::image::{file_name, file_name_of};
use crate::models::{BundleRefInfo, BundleVerifyResult};
use crate::scan::{find_chars, find_first, lines_of, seqs_of, split_lines, tail_from, take_chars};
use crate::text::{chars_of, decimal, decimal_of, short_sha, string_from_chars, trim, trim_ws};

verus! {

/// How a line `<sha> <refname>` of a ref listing is shown:
/// `<refname> (<first seven characters of sha>)`. A line without a space is
/// shown as it is.
pub open spec fn ref_label_of(l: Seq<char>) -> Seq<char> {
    match find_first(l, seq![' ']) {
        Some(i) => l.skip(i + 1) + " ("@ + l.take(if i < 7 {
            i
        } else {
            7
        }) + ")"@,
        None => l,
    }
}

/// How one line of a ref listing is shown.
pub fn bundle_ref_label(line: &str) -> (r: String)
    ensures
        r@ == ref_label_of(line@),
{
    let l = chars_of(line);
    let line_len = l.len();
    let mut space: Vec<char> = Vec::new();
    space.push(' ');
    proof {
        assert(space@ =~= seq![' ']);
    }
    match find_chars(&l, &space) {
        Some(i) => {
            assert(i + 1 <= line_len);
            let rest = tail_from(&l, i + 1);
            let sha = take_chars(&l, if i < 7 { i } else { 7 });
            let mut s = string_from_chars(rest.as_slice());
            s.append(" (");
            s.append(string_from_chars(sha.as_slice()).as_str());
            s.append(")");
            s
        },
        None => String::from_str(line),
    }
}

/// The labels of the non-empty lines of a ref listing, in order.
pub open spec fn ref_labels_of(listing: Seq<char>) -> Seq<Seq<char>> {
    lines_of(listing).filter(|l: Seq<char>| l.len() > 0).map_values(|l: Seq<char>| ref_label_of(l))
}

/// The refs of a bundle, from the listing that `git bundle list-heads` prints.
pub fn bundle_ref_labels(listing: &str) -> (r: Vec<String>)
    ensures
        r@.len() == ref_labels_of(listing@).len(),
        forall|i: int| 0 <= i < r@.len() ==> #[trigger] r@[i]@ == ref_labels_of(listing@)[i],
{
    let lines = split_lines(&chars_of(listing));
    let ghost ls = lines_of(listing@);
    let ghost nonempty = |l: Seq<char>| l.len() > 0;
    let ghost label = |l: Seq<char>| ref_label_of(l);
    let mut out: Vec<String> = Vec::new();
    let mut i: usize = 0;
    while i < lines.len()
        invariant
            seqs_of(lines@) == ls,
            i <= lines.len(),
            nonempty == (|l: Seq<char>| l.len() > 0),
            label == (|l: Seq<char>| ref_label_of(l)),
            out@.len() == ls.take(i as int).filter(nonempty).len(),
            forall|k: int|
                0 <= k < out@.len() ==> #[trigger] out@[k]@ == label(
                    ls.take(i as int).filter(nonempty)[k],
                ),
        decreases lines.len() - i,
    {
        proof {
            assert(ls.take(i + 1).drop_last() =~= ls.take(i as int));
            assert(lines@[i as int]@ == ls[i as int]);
            reveal(Seq::filter);
        }
        if lines[i].len() > 0 {
            let s = string_from_chars(lines[i].as_slice());
            out.push(bundle_ref_label(s.as_str()));
        }
        i = i + 1;
    }
    proof {
        assert(ls.take(lines.len() as int) =~= ls);
    }
    out
}

/// The result of checking a bundle. A valid bundle is reported with the
/// number of its refs; an invalid one with what the check printed on its
/// error stream, or else on its output, trimmed.
pub fn bundle_verify_result(valid: bool, refs: Vec<String>, stdout: &str, stderr: &str) -> (r:
    BundleVerifyResult)
    ensures
        r.valid == valid,
        r.refs@ == refs@,
        valid ==> r.message@ == "번들이 유효합니다 ("@ + decimal_of(refs.len() as nat)
            + "개 ref 포함)"@,
        !valid ==> r.message@ == "번들 검증 실패: "@ + trim_ws(
            if stderr@.len() > 0 {
                stderr@
            } else {
                stdout@
            },
        ),
{
    let message = if valid {
        let mut m = String::from_str("번들이 유효합니다 (");
        m.append(decimal(refs.len()).as_str());
        m.append("개 ref 포함)");
        m
    } else {
        let mut m = String::from_str("번들 검증 실패: ");
        let detail = if stderr.unicode_len() > 0 {
            trim(stderr)
        } else {
            trim(stdout)
        };
        m.append(detail.as_str());
        m
    };
    BundleVerifyResult { valid, message, refs }
}

/// What a successful fetch from a bundle reports: the error stream where it
/// is not empty (git prints its progress there), else the output, trimmed;
/// a fixed text where both are empty.
pub fn bundle_fetch_message(stdout: &str, stderr: &str) -> (r: String)
    ensures
        r@ == if stderr@.len() > 0 {
            trim_ws(stderr@)
        } else if stdout@.len() > 0 {
            trim_ws(stdout@)
        } else {
            "번들에서 페치 완료"@
        },
{
    if stderr.unicode_len() > 0 {
        trim(stderr)
    } else if stdout.unicode_len() > 0 {
        trim(stdout)
    } else {
        String::from_str("번들에서 페치 완료")
    }
}

/// An error of a bundle command: a prefix and the trimmed error stream.
pub fn bundle_error(prefix: &str, stderr: &str) -> (r: String)
    ensures
        r@ == prefix@ + trim_ws(stderr@),
{
    let mut m = String::from_str(prefix);
    m.append(trim(stderr).as_str());
    m
}

/// What writing a bundle reports: the name of the file written.
pub fn bundle_created_message(output_path: &str) -> (r: String)
    ensures
        r@ == "번들 생성 완료: "@ + match file_name_of(output_path@) {
            Some(n) => n,
            None => ""@,
        },
{
    let mut m = String::from_str("번들 생성 완료: ");
    match file_name(&chars_of(output_path)) {
        Some(n) => m.append(string_from_chars(n.as_slice()).as_str()),
        None => {
            proof {
                reveal_strlit("");
                assert(m@ + ""@ =~= m@);
            }
        },
    }
    m
}

/// A ref that can be bundled: a branch or a tag, with its commit id
/// abbreviated.
pub fn bundle_ref_info(name: &str, sha: &str, is_tag: bool) -> (r: BundleRefInfo)
    requires
        sha@.len() >= 7,
    ensures
        r.name@ == name@,
        r.commit_sha@ == sha@.take(7),
        r.ref_type@ == if is_tag {
            "tag"@
        } else {
            "branch"@
        },
{
    BundleRefInfo {
        name: String::from_str(name),
        commit_sha: short_sha(sha),
        ref_type: String::from_str(if is_tag { "tag" } else { "branch" }),
    }
}

} // verus!
