use vstd::prelude::*;

use crate::cache::CacheError;
use crate::symbol::{symbol_views, Symbol, SymbolView};

verus! {

/// The symbols of a file, by where they come from.
#[derive(Debug)]
pub enum SymbolStream<P, C> {
    /// Found by parsing the file.
    FromParser(P),
    /// Read from the cache.
    FromCache(C),
}

impl<P, C> SymbolStream<P, C> {
    pub fn is_from_parser(&self) -> (from_parser: bool)
        ensures
            from_parser == (self is FromParser),
    {
        match self {
            SymbolStream::FromParser(_) => true,
            SymbolStream::FromCache(_) => false,
        }
    }
}

/// The value of what a stream hands out: the symbol, or the error in its
/// place.
pub open spec fn result_views(results: Seq<Result<Symbol, CacheError>>) -> Seq<
    Result<SymbolView, CacheError>,
> {
    results.map_values(
        |r: Result<Symbol, CacheError>|
            match r {
                Ok(s) => Ok(s@),
                Err(e) => Err(e),
            },
    )
}

/// Each symbol as a result that is fine.
pub open spec fn all_fine(symbols: Seq<SymbolView>) -> Seq<Result<SymbolView, CacheError>> {
    symbols.map_values(|s: SymbolView| Ok::<SymbolView, CacheError>(s))
}

impl SymbolStream<Vec<Symbol>, Vec<Result<Symbol, CacheError>>> {
    /// What the stream hands out, whichever side it comes from.
    pub open spec fn spec_into_stream(self) -> Seq<Result<SymbolView, CacheError>> {
        match self {
            SymbolStream::FromParser(symbols) => all_fine(symbol_views(symbols@)),
            SymbolStream::FromCache(results) => result_views(results@),
        }
    }

    /// One sequence of results for both sides: what the parser found is
    /// fine as it is, and what the cache read stays what it was, in
    /// order.
    pub fn into_stream(self) -> (results: Vec<Result<Symbol, CacheError>>)
        ensures
            result_views(results@) == self.spec_into_stream(),
    {
        match self {
            SymbolStream::FromParser(symbols) => {
                let ghost all = symbol_views(symbols@);
                let ghost given = symbols@;
                let mut rest = symbols;
                let mut results: Vec<Result<Symbol, CacheError>> = Vec::new();
                let ghost mut done: int = 0;
                assert(result_views(results@) =~= all_fine(all).take(0));
                while rest.len() > 0
                    invariant
                        0 <= done <= given.len(),
                        all == symbol_views(given),
                        rest@ =~= given.skip(done),
                        result_views(results@) == all_fine(all).take(done),
                    decreases rest.len(),
                {
                    let ghost before = result_views(results@);
                    assert(rest@.len() == given.len() - done);
                    assert(rest@[0] == given[done]);
                    let symbol = rest.remove(0);
                    assert(rest@ =~= given.skip(done + 1));
                    results.push(Ok(symbol));
                    proof {
                        assert(result_views(results@) =~= before.push(Ok(symbol@)));
                        assert(all_fine(all).take(done + 1) =~= all_fine(all).take(done).push(
                            Ok(symbol@),
                        ));
                        done = done + 1;
                    }
                }
                assert(all_fine(all).take(done) =~= all_fine(all));
                results
            },
            SymbolStream::FromCache(results) => results,
        }
    }
}

} // verus!
