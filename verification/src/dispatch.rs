use vstd::prelude::*;
use vstd::string::StringExecFns;
use crate::encode::push_char;

verus! {

/// The placeholder token that the action template marks the URL's place with.
pub open spec fn url_placeholder() -> Seq<char> {
    "$url"@
}

/// The action template with every occurrence of the placeholder replaced by
/// the URL, scanning left to right without rescanning substituted text.
pub open spec fn substitute_spec(t: Seq<char>, url: Seq<char>) -> Seq<char>
    decreases t.len(),
{
    if t.len() < 4 {
        t
    } else if t.subrange(0, 4) == url_placeholder() {
        url + substitute_spec(t.skip(4), url)
    } else {
        seq![t[0]] + substitute_spec(t.skip(1), url)
    }
}

/// Builds the command line for one dispatch by substituting the placeholder.
pub fn substitute_url(template: &str, url: &str) -> (r: String)
    ensures
        r@ == substitute_spec(template@, url@),
{
    let n = template.unicode_len();
    let mut out = String::new();
    let mut i: usize = 0;
    proof {
        reveal_strlit("$url");
        assert(template@.skip(0) =~= template@);
        assert(out@ + substitute_spec(template@, url@) =~= substitute_spec(template@, url@));
    }
    while i < n
        invariant
            i <= n,
            n == template@.len(),
            substitute_spec(template@, url@) == out@ + substitute_spec(
                template@.skip(i as int),
                url@,
            ),
        decreases n - i,
    {
        let ghost out0 = out@;
        let ghost rest = template@.skip(i as int);
        proof {
            reveal_strlit("$url");
            assert(url_placeholder().len() == 4);
            assert(url_placeholder()[0] == '$' && url_placeholder()[1] == 'u'
                && url_placeholder()[2] == 'r' && url_placeholder()[3] == 'l');
            assert forall|k: int| 0 <= k < rest.len() implies rest[k] == template@[i + k] by {}
        }
        if n - i >= 4 && template.get_char(i) == '$' && template.get_char(i + 1) == 'u'
            && template.get_char(i + 2) == 'r' && template.get_char(i + 3) == 'l' {
            out.append(url);
            proof {
                assert(rest.subrange(0, 4) =~= url_placeholder());
                assert(rest.skip(4) =~= template@.skip(i + 4));
                assert(substitute_spec(rest, url@) == url@ + substitute_spec(
                    template@.skip(i + 4),
                    url@,
                ));
                assert(out0 + substitute_spec(rest, url@) =~= out@ + substitute_spec(
                    template@.skip(i + 4),
                    url@,
                ));
            }
            i = i + 4;
        } else {
            let c = template.get_char(i);
            push_char(&mut out, c);
            proof {
                assert(rest[0] == c);
                if rest.len() >= 4 {
                    assert(rest.subrange(0, 4) != url_placeholder()) by {
                        if rest.subrange(0, 4) == url_placeholder() {
                            assert(rest[0] == rest.subrange(0, 4)[0]);
                            assert(rest[1] == rest.subrange(0, 4)[1]);
                            assert(rest[2] == rest.subrange(0, 4)[2]);
                            assert(rest[3] == rest.subrange(0, 4)[3]);
                        }
                    }
                    assert(substitute_spec(rest, url@) == seq![c] + substitute_spec(
                        rest.skip(1),
                        url@,
                    ));
                } else {
                    assert(substitute_spec(rest, url@) == rest);
                    assert(rest =~= seq![c] + rest.skip(1));
                    assert(substitute_spec(rest.skip(1), url@) == rest.skip(1));
                }
                assert(rest.skip(1) =~= template@.skip(i + 1));
                assert(out0 + substitute_spec(rest, url@) =~= out@ + substitute_spec(
                    template@.skip(i + 1),
                    url@,
                ));
            }
            i = i + 1;
        }
    }
    proof {
        assert(template@.skip(n as int) =~= Seq::<char>::empty());
        assert(out@ + substitute_spec(template@.skip(n as int), url@) =~= out@);
    }
    out
}

/// How one external-action invocation ended.
#[derive(Debug, PartialEq, Eq)]
pub enum DispatchOutcome {
    /// The command ran and wrote nothing to its error stream.
    Success,
    /// The command could not be spawned at all.
    SpawnFailed { reason: String },
    /// The command ran but wrote to its error stream; a soft failure.
    RanWithStderr { stderr: Vec<u8> },
}

/// Classifies one run of the external action from what the spawn produced:
/// a spawn error, or the error-stream bytes of the finished command. Only
/// emptiness of the error stream is inspected; exit status and standard
/// output are not.
pub fn classify_run(run: Result<Vec<u8>, String>) -> (r: DispatchOutcome)
    ensures
        run is Err ==> r == (DispatchOutcome::SpawnFailed { reason: run->Err_0 }),
        run is Ok && (run->Ok_0)@.len() == 0 ==> r is Success,
        run is Ok && (run->Ok_0)@.len() != 0 ==> r == (DispatchOutcome::RanWithStderr {
            stderr: run->Ok_0,
        }),
{
    match run {
        Err(reason) => DispatchOutcome::SpawnFailed { reason },
        Ok(stderr) => {
            if stderr.len() == 0 {
                DispatchOutcome::Success
            } else {
                DispatchOutcome::RanWithStderr { stderr }
            }
        },
    }
}

} // verus!
