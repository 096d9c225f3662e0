//! One row of the server's channel listing: name, topic and user count,
//! decoded from a raw four-field listing record.

use vstd::prelude::*;
use vstd::string::StrSliceExecFns;
use vstd::string::StringExecFns;
use crate::ParseError;
use crate::pattern::glob_match;
use crate::request::Request;
use crate::request::ReqView;
use crate::request::spec_count_in_bounds;
use crate::text::spec_parse_u32;
use crate::text::u64_dec;
use crate::text::u64_to_string;

verus! {

/// Abstract value of a channel entry.
#[verifier::ext_equal]
pub struct ChanView {
    pub name: Seq<char>,
    pub topic: Seq<char>,
    pub users: u32,
}

/// A channel entry. Never mutated after construction.
#[derive(Debug)]
pub struct Channel {
    name: String,
    topic: String,
    users: u32,
}

impl View for Channel {
    type V = ChanView;

    closed spec fn view(&self) -> ChanView {
        ChanView { name: self.name@, topic: self.topic@, users: self.users }
    }
}

impl DeepView for Channel {
    type V = ChanView;

    open spec fn deep_view(&self) -> ChanView {
        self.view()
    }
}

/// A raw listing record decodes into a channel entry: exactly four fields,
/// the third of which reads as a `u32` user count. The first field (the
/// server's own marker) is ignored.
pub open spec fn spec_record_ok(fields: Seq<Seq<char>>) -> bool {
    fields.len() == 4 && spec_parse_u32(fields[2]) is Some
}

/// The channel entry a well-formed listing record decodes into.
pub open spec fn spec_channel_of(fields: Seq<Seq<char>>) -> ChanView {
    ChanView { name: fields[1], topic: fields[3], users: spec_parse_u32(fields[2])->0 }
}

/// A channel entry matches a request exactly when its name matches the name
/// pattern, its topic matches the topic pattern if one is given, and its user
/// count lies within the given bounds.
pub open spec fn spec_matches(c: ChanView, q: ReqView) -> bool {
    &&& glob_match(q.chan_pattern, c.name)
    &&& match q.topic_pattern {
        Some(p) => glob_match(p, c.topic),
        None => true,
    }
    &&& spec_count_in_bounds(q, c.users)
}

/// A sequence of `n` spaces.
pub open spec fn spaces(n: nat) -> Seq<char> {
    Seq::new(n, |i: int| ' ')
}

/// A name padded with spaces to at least twenty-five characters.
pub open spec fn spec_pad_name(name: Seq<char>) -> Seq<char> {
    if name.len() < 25 {
        name + spaces((25 - name.len()) as nat)
    } else {
        name
    }
}

/// The display line of a channel entry: the padded name, the user count and
/// the topic.
pub open spec fn spec_render_channel(c: ChanView) -> Seq<char> {
    spec_pad_name(c.name) + " "@ + u64_dec(c.users as nat) + ": "@ + c.topic
}

impl Channel {
    /// Decode a channel entry from a raw listing record; fails exactly on a
    /// record that is not four fields with a numeric count.
    pub fn new(vec: &Vec<String>) -> (r: Result<Channel, ParseError>)
        ensures
            r is Ok <==> spec_record_ok(vec.deep_view()),
            r is Ok ==> r->Ok_0@ == spec_channel_of(vec.deep_view()),
    {
        if vec.len() == 4 {
            match crate::text::parse_u32_str(vec[2].as_str()) {
                Some(users) => {
                    let c = Channel { name: vec[1].clone(), topic: vec[3].clone(), users };
                    proof {
                        assert(c@ =~= spec_channel_of(vec.deep_view()));
                    }
                    Ok(c)
                },
                None => Err(ParseError),
            }
        } else {
            Err(ParseError)
        }
    }

    /// Whether the entry matches the request.
    pub fn matches(&self, request: &Request) -> (r: bool)
        requires
            request.wf(),
        ensures
            r == spec_matches(self@, request@),
    {
        request.name_matches(self.name.as_str()) && request.topic_matches(self.topic.as_str())
            && request.count_in_bounds(self.users)
    }

    /// The entry's display line.
    pub fn render(&self) -> (r: String)
        ensures
            r@ == spec_render_channel(self@),
    {
        let mut padded = self.name.clone();
        let mut n = padded.as_str().unicode_len();
        while n < 25
            invariant
                n == padded@.len(),
            padded@ == self@.name + spaces((n - self@.name.len()) as nat),
            n >= self@.name.len(),
            n == self@.name.len() || n <= 25,
            decreases 25 - n,
        {
            padded.append(" ");
            n = n + 1;
            proof {
                reveal_strlit(" ");
                assert(padded@ =~= self@.name + spaces((n - self@.name.len()) as nat));
            }
        }
        let r = padded.concat(" ").concat(u64_to_string(self.users as u64).as_str()).concat(
            ": ",
        ).concat(self.topic.as_str());
        proof {
            assert(padded@ =~= spec_pad_name(self@.name));
            assert(r@ =~= spec_render_channel(self@));
        }
        r
    }
}

} // verus!
