//! The plain GET-framed request of the direct receive path: the bytes
//! `GET <path>\n<secrets JSON>\r\n`.  The payload extraction checks the
//! frame and hands back exactly the bytes after the first line break.
use vstd::prelude::*;
use vstd::string::*;

verus! {

/// The index of the first line feed, or the length when there is none.
pub open spec fn newline_pos(b: Seq<u8>) -> int
    decreases b.len(),
{
    if b.len() == 0 {
        0
    } else if b[0] == 10u8 {
        0
    } else {
        1 + newline_pos(b.drop_first())
    }
}

/// Whether the frame opens with the four bytes `GET `.
pub open spec fn has_get_prefix(x: Seq<u8>) -> bool {
    x.len() >= 4 && x[0] == 71u8 && x[1] == 69u8 && x[2] == 84u8 && x[3] == 32u8
}

/// Whether the frame closes with the two bytes `\r\n` after the verb.
pub open spec fn has_crlf_suffix(x: Seq<u8>) -> bool {
    x.len() >= 6 && x[x.len() - 2] == 13u8 && x[x.len() - 1] == 10u8
}

/// The body of a well-formed frame: everything between the verb and
/// the closing line break.
pub open spec fn frame_body(x: Seq<u8>) -> Seq<u8> {
    x.subrange(4, x.len() - 2)
}

/// Why a request frame was rejected.
#[derive(Debug, Clone, PartialEq, Eq, Structural)]
pub enum FrameError {
    /// The frame does not open with `GET `.
    MissingGet,
    /// The frame does not close with `\r\n`.
    MissingCrlf,
    /// The body has no line break, so it carries no payload line.
    MissingPayload,
}

impl FrameError {
    /// The operator-facing description.
    pub fn message(&self) -> (r: String)
        ensures
            *self is MissingGet ==> r@ == "missing GET"@,
            *self is MissingCrlf ==> r@ == "missing \\r\\n"@,
            *self is MissingPayload ==> r@ == "missing payload line"@,
    {
        match self {
            FrameError::MissingGet => "missing GET".to_owned(),
            FrameError::MissingCrlf => "missing \\r\\n".to_owned(),
            FrameError::MissingPayload => "missing payload line".to_owned(),
        }
    }
}

proof fn lemma_newline_pos_found(b: Seq<u8>, i: int)
    requires
        0 <= i < b.len(),
        b[i] == 10u8,
        forall|j: int| 0 <= j < i ==> b[j] != 10u8,
    ensures
        newline_pos(b) == i,
    decreases i,
{
    if i > 0 {
        lemma_newline_pos_found(b.drop_first(), i - 1);
    }
}

proof fn lemma_newline_pos_missing(b: Seq<u8>)
    requires
        forall|j: int| 0 <= j < b.len() ==> b[j] != 10u8,
    ensures
        newline_pos(b) == b.len(),
    decreases b.len(),
{
    if b.len() > 0 {
        lemma_newline_pos_missing(b.drop_first());
    }
}

#[verifier::loop_isolation(false)]
fn body_newline(x: &Vec<u8>) -> (pos: usize)
    requires
        x@.len() >= 6,
    ensures
        pos == newline_pos(frame_body(x@)) || (pos == x@.len() - 6 && newline_pos(frame_body(x@))
            >= x@.len() - 6),
        pos <= x@.len() - 6,
{
    let ghost body = frame_body(x@);
    let blen = x.len() - 6;
    let mut i: usize = 0;
    while i < blen
        invariant
            i <= blen,
            forall|j: int| 0 <= j < i ==> body[j] != 10u8,
        decreases blen - i,
    {
        if x[4 + i] == 10u8 {
            proof {
                assert(body[i as int] == x@[4 + i]);
                lemma_newline_pos_found(body, i as int);
            }
            return i;
        }
        proof {
            assert(body[i as int] == x@[4 + i]);
        }
        i += 1;
    }
    proof {
        lemma_newline_pos_missing(body);
    }
    blen
}

/// Extract the secrets bytes of a request frame: after the checks on
/// the verb and the closing line break, everything of the body that
/// follows its first line break.  A body without a line break carries
/// no payload and is rejected.
#[verifier::loop_isolation(false)]
pub fn frame_payload(x: &Vec<u8>) -> (r: Result<Vec<u8>, FrameError>)
    ensures
        !has_get_prefix(x@) ==> r == Result::<Vec<u8>, FrameError>::Err(FrameError::MissingGet),
        has_get_prefix(x@) && !has_crlf_suffix(x@) ==> r == Result::<Vec<u8>, FrameError>::Err(
            FrameError::MissingCrlf,
        ),
        has_get_prefix(x@) && has_crlf_suffix(x@) && newline_pos(frame_body(x@)) >= frame_body(
            x@,
        ).len() ==> r == Result::<Vec<u8>, FrameError>::Err(FrameError::MissingPayload),
        has_get_prefix(x@) && has_crlf_suffix(x@) && newline_pos(frame_body(x@)) < frame_body(
            x@,
        ).len() ==> (r matches Ok(p) && p@ == frame_body(x@).skip(
            newline_pos(frame_body(x@)) + 1,
        )),
        r is Ok <==> has_get_prefix(x@) && has_crlf_suffix(x@) && newline_pos(frame_body(x@))
            < frame_body(x@).len(),
{
    let n = x.len();
    if n < 4 || x[0] != 71u8 || x[1] != 69u8 || x[2] != 84u8 || x[3] != 32u8 {
        return Result::Err(FrameError::MissingGet);
    }
    if n - 4 < 2 || x[n - 2] != 13u8 || x[n - 1] != 10u8 {
        return Result::Err(FrameError::MissingCrlf);
    }
    let ghost body = frame_body(x@);
    let blen = n - 6;
    let pos = body_newline(x);
    if pos >= blen {
        return Result::Err(FrameError::MissingPayload);
    }
    proof {
        assert(pos == newline_pos(body));
    }
    let mut out: Vec<u8> = Vec::new();
    let mut k: usize = pos + 1;
    proof {
        assert(out@ =~= body.skip(newline_pos(body) + 1).take(0));
    }
    while k < blen
        invariant
            pos + 1 <= k <= blen,
            out@ == body.skip(newline_pos(body) + 1).take(k - pos - 1),
        decreases blen - k,
    {
        out.push(x[4 + k]);
        proof {
            assert(body[k as int] == x@[4 + k]);
            assert(body.skip(newline_pos(body) + 1)[k - pos - 1] == body[k as int]);
            assert(out@ =~= body.skip(newline_pos(body) + 1).take(k + 1 - pos - 1));
        }
        k += 1;
    }
    proof {
        assert(out@ =~= body.skip(newline_pos(body) + 1));
    }
    Result::Ok(out)
}

} // verus!
