//! Hierarchical identifiers for the devices and services an agent governs.
//!
//! An entity topic identifier has exactly four segments, `a/b/c/d`; in the
//! default scheme a device is `device/<name>//` and a service under it is
//! `device/<name>/service/<service-name>`. Trailing segments may be empty
//! but are always present on the wire.

use crate::text::lemma_split_join;
use crate::text::lemma_split_parts_free_of_sep;
use crate::text::spec_join;
use crate::text::spec_split;
use crate::text::split_str;
use crate::text::str_eq;
use vstd::prelude::*;

verus! {

/// A single topic segment may not contain the separator nor a wildcard.
pub open spec fn seg_wf(s: Seq<char>) -> bool {
    !s.contains('/') && !s.contains('+') && !s.contains('#')
}

/// Identifier of a device or service, as it stands on the topics.
#[derive(Debug)]
pub struct EntityTopicId {
    seg1: String,
    seg2: String,
    seg3: String,
    seg4: String,
}

impl View for EntityTopicId {
    type V = Seq<Seq<char>>;

    closed spec fn view(&self) -> Seq<Seq<char>> {
        seq![self.seg1@, self.seg2@, self.seg3@, self.seg4@]
    }
}

/// Whether `parts` are four well-formed segments.
pub open spec fn entity_parts_wf(parts: Seq<Seq<char>>) -> bool {
    parts.len() == 4 && (forall|k: int| 0 <= k < 4 ==> seg_wf(#[trigger] parts[k]))
}

impl EntityTopicId {
    /// Every segment is free of separators and wildcards.
    pub open spec fn wf(self) -> bool {
        entity_parts_wf(self@)
    }

    /// The identifier as it stands inside a topic: the four segments
    /// joined by `/`.
    pub open spec fn spec_path(self) -> Seq<char> {
        spec_join(self@, '/')
    }

    /// Which identifier `s` names: its four `/`-separated segments, if it
    /// has exactly four and none holds a wildcard.
    pub open spec fn spec_parse(s: Seq<char>) -> Option<Seq<Seq<char>>> {
        let parts = spec_split(s, '/');
        if entity_parts_wf(parts) {
            Some(parts)
        } else {
            None
        }
    }

    /// Parse an identifier such as `device/child-foo//`.
    pub fn parse(s: &str) -> (r: Option<EntityTopicId>)
        ensures
            r is Some <==> Self::spec_parse(s@) is Some,
            r matches Some(e) ==> Some(e@) == Self::spec_parse(s@) && e.wf() && e.spec_path()
                == s@,
    {
        let mut parts = split_str(s, '/');
        proof {
            lemma_split_parts_free_of_sep(s@, '/');
            lemma_split_join(s@, '/');
        }
        if parts.len() != 4 {
            return None;
        }
        let mut k: usize = 0;
        while k < 4
            invariant
                parts@.len() == 4,
                k <= 4,
                parts@.map_values(|p: String| p@) == spec_split(s@, '/'),
                forall|j: int| 0 <= j < k ==> seg_wf(#[trigger] spec_split(s@, '/')[j]),
            decreases 4 - k,
        {
            let part = &parts[k];
            if crate::text::contains_char(part.as_str(), '+') || crate::text::contains_char(
                part.as_str(),
                '#',
            ) {
                proof {
                    lemma_split_parts_free_of_sep(s@, '/');
                    assert(!seg_wf(spec_split(s@, '/')[k as int]));
                }
                return None;
            }
            proof {
                lemma_split_parts_free_of_sep(s@, '/');
                assert(seg_wf(spec_split(s@, '/')[k as int]));
            }
            k += 1;
        }
        let ghost orig = parts@.map_values(|p: String| p@);
        let p4 = parts.pop().unwrap();
        let p3 = parts.pop().unwrap();
        let p2 = parts.pop().unwrap();
        let p1 = parts.pop().unwrap();
        let e = EntityTopicId { seg1: p1, seg2: p2, seg3: p3, seg4: p4 };
        proof {
            assert(e@ =~= spec_split(s@, '/'));
        }
        Some(e)
    }

    /// Build an identifier from four segments, provided each is free of
    /// separators and wildcards.
    pub fn from_segments(s1: String, s2: String, s3: String, s4: String) -> (r: Option<
        EntityTopicId,
    >)
        ensures
            r is Some <==> entity_parts_wf(seq![s1@, s2@, s3@, s4@]),
            r matches Some(e) ==> e@ == seq![s1@, s2@, s3@, s4@],
    {
        let ghost parts = seq![s1@, s2@, s3@, s4@];
        if seg_ok(s1.as_str()) && seg_ok(s2.as_str()) && seg_ok(s3.as_str()) && seg_ok(
            s4.as_str(),
        ) {
            let e = EntityTopicId { seg1: s1, seg2: s2, seg3: s3, seg4: s4 };
            proof {
                assert(e@ =~= parts);
                assert forall|k: int| 0 <= k < 4 implies seg_wf(#[trigger] parts[k]) by {
                    if k == 0 {
                        assert(parts[0] == e@[0]);
                    } else if k == 1 {
                        assert(parts[1] == e@[1]);
                    } else if k == 2 {
                        assert(parts[2] == e@[2]);
                    } else {
                        assert(parts[3] == e@[3]);
                    }
                }
            }
            Some(e)
        } else {
            proof {
                assert(!entity_parts_wf(parts)) by {
                    if !seg_wf(s1@) {
                        assert(parts[0] == s1@);
                    } else if !seg_wf(s2@) {
                        assert(parts[1] == s2@);
                    } else if !seg_wf(s3@) {
                        assert(parts[2] == s3@);
                    } else {
                        assert(parts[3] == s4@);
                    }
                }
            }
            None
        }
    }

    /// The identifier of the main device, `device/main//`.
    pub fn default_main_device() -> (e: EntityTopicId)
        ensures
            e.wf(),
            e@ == seq!["device"@, "main"@, ""@, ""@],
    {
        let e = EntityTopicId {
            seg1: String::from_str("device"),
            seg2: String::from_str("main"),
            seg3: String::new(),
            seg4: String::new(),
        };
        proof {
            lemma_device_literals_wf();
            reveal_strlit("");
            assert(""@ =~= Seq::<char>::empty());
            assert(e@ =~= seq!["device"@, "main"@, ""@, ""@]);
        }
        e
    }

    /// The `/`-joined form of the identifier.
    pub fn to_path(&self) -> (r: String)
        ensures
            r@ == self.spec_path(),
    {
        let mut out = self.seg1.clone();
        out.append("/");
        out.append(self.seg2.as_str());
        out.append("/");
        out.append(self.seg3.as_str());
        out.append("/");
        out.append(self.seg4.as_str());
        proof {
            reveal_with_fuel(crate::text::spec_join, 5);
            reveal_strlit("/");
            assert("/"@ =~= seq!['/']);
            assert(self@.drop_first() =~= seq![self.seg2@, self.seg3@, self.seg4@]);
            assert(self@.drop_first().drop_first() =~= seq![self.seg3@, self.seg4@]);
            assert(self@.drop_first().drop_first().drop_first() =~= seq![self.seg4@]);
            assert(out@ =~= self.spec_path());
        }
        out
    }

    /// In the default scheme, the name of the service this identifier
    /// denotes: the fourth segment of `device/<name>/service/<service>`.
    pub fn default_service_name(&self) -> (r: Option<String>)
        ensures
            r is Some <==> (self@[0] == "device"@ && self@[2] == "service"@),
            r matches Some(n) ==> n@ == self@[3],
    {
        if str_eq(self.seg1.as_str(), "device") && str_eq(self.seg3.as_str(), "service") {
            Some(self.seg4.clone())
        } else {
            None
        }
    }

    /// In the default scheme, the identifier of the device this entity
    /// lives under: `device/<name>//` for any `device/<name>/...`.
    pub fn default_parent_identifier(&self) -> (r: Option<EntityTopicId>)
        ensures
            r is Some <==> self@[0] == "device"@,
            r matches Some(p) ==> p@ == seq!["device"@, self@[1], ""@, ""@] && (self.wf()
                ==> p.wf()),
    {
        if str_eq(self.seg1.as_str(), "device") {
            let p = EntityTopicId {
                seg1: String::from_str("device"),
                seg2: self.seg2.clone(),
                seg3: String::new(),
                seg4: String::new(),
            };
            proof {
                lemma_device_literals_wf();
                reveal_strlit("");
                assert(""@ =~= Seq::<char>::empty());
                assert(p@ =~= seq!["device"@, self@[1], ""@, ""@]);
            }
            Some(p)
        } else {
            None
        }
    }

    /// Whether this is `device/<name>//` for some `name` other than
    /// `main`: a child device in the default scheme.
    pub fn is_default_child_device(&self) -> (r: bool)
        ensures
            r == (self@[0] == "device"@ && self@[1] != "main"@ && self@[2] == ""@ && self@[3]
                == ""@),
    {
        str_eq(self.seg1.as_str(), "device") && !str_eq(self.seg2.as_str(), "main") && str_eq(
            self.seg3.as_str(),
            "",
        ) && str_eq(self.seg4.as_str(), "")
    }

    /// In the default scheme, the device name: the second segment of
    /// `device/<name>//`.
    pub fn default_device_name(&self) -> (r: Option<String>)
        ensures
            r is Some <==> (self@[0] == "device"@ && self@[2] == ""@ && self@[3] == ""@),
            r matches Some(n) ==> n@ == self@[1],
    {
        if str_eq(self.seg1.as_str(), "device") && str_eq(self.seg3.as_str(), "") && str_eq(
            self.seg4.as_str(),
            "",
        ) {
            Some(self.seg2.clone())
        } else {
            None
        }
    }
}

impl Clone for EntityTopicId {
    fn clone(&self) -> (r: Self)
        ensures
            r@ == self@,
    {
        EntityTopicId {
            seg1: self.seg1.clone(),
            seg2: self.seg2.clone(),
            seg3: self.seg3.clone(),
            seg4: self.seg4.clone(),
        }
    }
}

impl PartialEq for EntityTopicId {
    fn eq(&self, other: &Self) -> (r: bool) {
        let same = str_eq(self.seg1.as_str(), other.seg1.as_str()) && str_eq(
            self.seg2.as_str(),
            other.seg2.as_str(),
        ) && str_eq(self.seg3.as_str(), other.seg3.as_str()) && str_eq(
            self.seg4.as_str(),
            other.seg4.as_str(),
        );
        proof {
            if same {
                assert(self@ =~= other@);
            }
            if self@ == other@ {
                assert(self.seg1@ == self@[0] && other.seg1@ == other@[0]);
                assert(self.seg2@ == self@[1] && other.seg2@ == other@[1]);
                assert(self.seg3@ == self@[2] && other.seg3@ == other@[2]);
                assert(self.seg4@ == self@[3] && other.seg4@ == other@[3]);
            }
        }
        same
    }
}

impl vstd::std_specs::cmp::PartialEqSpecImpl for EntityTopicId {
    open spec fn obeys_eq_spec() -> bool {
        true
    }

    open spec fn eq_spec(&self, other: &Self) -> bool {
        self@ == other@
    }
}

/// An entity topic identifier always has exactly four segments.
pub broadcast proof fn lemma_entity_view_len(e: &EntityTopicId)
    ensures
        (#[trigger] e@).len() == 4,
{
}

/// Whether `s` is a well-formed topic segment.
pub fn seg_ok(s: &str) -> (r: bool)
    ensures
        r == seg_wf(s@),
{
    !crate::text::contains_char(s, '/') && !crate::text::contains_char(s, '+')
        && !crate::text::contains_char(s, '#')
}

/// The literal segments of the default scheme are well-formed.
proof fn lemma_device_literals_wf()
    ensures
        seg_wf("device"@),
        seg_wf("main"@),
        seg_wf("service"@),
        seg_wf(Seq::<char>::empty()),
{
    broadcast use vstd::string::group_string_axioms;

    reveal_strlit("device");
    reveal_strlit("main");
    reveal_strlit("service");
    assert("device"@ =~= seq!['d', 'e', 'v', 'i', 'c', 'e']);
    assert("main"@ =~= seq!['m', 'a', 'i', 'n']);
    assert("service"@ =~= seq!['s', 'e', 'r', 'v', 'i', 'c', 'e']);
}

} // verus!
