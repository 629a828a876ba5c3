use vstd::prelude::*;

verus! {

/// Descriptions of an error and its sources, from the outermost to the
/// innermost.
#[derive(Debug)]
pub struct ErrorChain {
    pub messages: Vec<String>,
}

/// All messages separated by colons.
pub open spec fn joined(messages: Seq<String>) -> Seq<char>
    decreases messages.len(),
{
    if messages.len() == 0 {
        Seq::empty()
    } else if messages.len() == 1 {
        messages[0]@
    } else {
        joined(messages.drop_last()) + ": "@ + messages.last()@
    }
}

impl ErrorChain {
    /// Describes the whole chain.
    pub fn to_string(&self) -> (res: String)
        requires
            self.messages.len() > 0,
        ensures
            res@ == joined(self.messages@),
    {
        let mut res: String = self.messages[0].clone();
        let mut i: usize = 1;
        assert(self.messages@.take(1)[0] == self.messages@[0]);
        while i < self.messages.len()
            invariant
                1 <= i <= self.messages.len(),
                res@ == joined(self.messages@.take(i as int)),
            decreases self.messages.len() - i,
        {
            res.append(": ");
            res.append(self.messages[i].as_str());
            i += 1;
            assert(self.messages@.take(i as int).drop_last() =~= self.messages@.take(i - 1));
            assert(self.messages@.take(i as int).last() == self.messages@[i - 1]);
        }
        assert(self.messages@.take(i as int) =~= self.messages@);
        res
    }
}

// === Laws ===

pub(crate) proof fn lemma_starts_with_outermost(messages: Seq<String>)
    requires
        messages.len() > 0,
    ensures
        messages[0]@.is_prefix_of(joined(messages)),
    decreases messages.len(),
{
    if messages.len() > 1 {
        let rest = messages.drop_last();
        lemma_starts_with_outermost(rest);
        assert(rest[0] == messages[0]);
        let outermost = messages[0]@;
        assert(joined(messages).take(outermost.len() as int) =~= joined(rest).take(
            outermost.len() as int,
        ));
    }
}

/// The description starts with the outermost error, and each source follows its
/// error after a colon.
pub proof fn sources_follow_errors(outer: ErrorChain, source: String, inner: ErrorChain, a: String, b: String)
    requires
        outer.messages.len() > 0,
        inner.messages@ == outer.messages@.push(source),
        call_ensures(ErrorChain::to_string, (&outer,), a),
        call_ensures(ErrorChain::to_string, (&inner,), b),
    ensures
        b@ == a@ + ": "@ + source@,
        outer.messages.len() == 1 ==> a@ == outer.messages[0]@,
{
    assert(inner.messages@.drop_last() =~= outer.messages@);
    assert(inner.messages@.last() == source);
}

} // verus!
