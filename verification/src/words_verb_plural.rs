//! Plural verb dictionary: 1024 code words held in implicit
//! binary-search-tree order, written as lines of space-separated words.

use vstd::prelude::*;

use crate::lexicon::push_words;

verus! {

/// The verb_plural word list, in the order the search expects.
pub fn verb_plural_words() -> Vec<String> {
    let mut v: Vec<String> = Vec::new();
    push_words(&mut v, "migloop flumoogran sostraung creagriost howeng rofleap teegoush bruklook");
    push_words(&mut v, "droufliot gloaflaind klouprior plesaclink slolahuck streabrel voburk bofliost");
    push_words(&mut v, "clecreer diosnaind flaidrang froavil groaklork kistroun lespiond noflourt");
    push_words(&mut v, "preesneeg skiofrudas smouwoal spuplaind swejurt triskealt woubrevunk blaiplox");
    push_words(&mut v, "breaslax cioclealt cludrek cruwiork drauwiod feaclosnor flioteerd frauflairt");
    push_words(&mut v, "geagint gouhank hecrux jufliot kliodaut kuplock loomask nauneag pikliot");
    push_words(&mut v, "pluzetriop proutrau seezousk slausno smeaplihuk sniolaush speerost stiospef");
    push_words(&mut v, "stuglol swospeerk toohiglik vagiot weeklack zeakaund bicriof blismoul");
    push_words(&mut v, "bougriong brioskick caskeng claplee cloapaik craijoong crionub dauskor doocal");
    push_words(&mut v, "dreeskeenk faicoon feswit flaujack floraint foowoork freasmouf fruspel");
    push_words(&mut v, "glaugliort gluloun greecex gumiox hiokliock jeplong keaseck kleahe kloastoog");
    push_words(&mut v, "koospaig lausnark lisneag meareet moucerk niofraul paimorn plautrard plosick");
    push_words(&mut v, "praigleem proaspauck reaflaub sailisnos skasleas skouveab slijoond smaiklaid");
    push_words(&mut v, "smiogoop snauviolt snousmord spauciob spocaihid steaswo stoubleed stroohaf");
    push_words(&mut v, "swauclip swoajiolt taflucroob testux traubresar troosund veswenk waistriom");
    push_words(&mut v, "wisweag zaclail zoobarm bastant blafuspand bleamoosk blooleank bookloost");
    push_words(&mut v, "braitroon briceeb broobiorn busneert ceapoust claidoung cleakourm clidraf");
    push_words(&mut v, "clotresh cootraig craubrirn creplung croograr daidaix deaskoub doadroaf");
    push_words(&mut v, "draidraix dreaspup drevairk drusiong faugaud feesmond finafloap flaivu flenorm");
    push_words(&mut v, "floateen flouneweel foaveask fraidouk frauweep frimort frookaif ganib gijid");
    push_words(&mut v, "gleenaird glootiob goloskock graikeeb gresoud groplix haupeerm heslaint");
    push_words(&mut v, "hoostaust jasleesk joosmios juwesh kiojaid klastrailt klicrood kloaglaint");
    push_words(&mut v, "kloohuck koaviglai kouclisk ladenk leeplal lioproat loadrank mafor mecrird");
    push_words(&mut v, "moaburk naizean neaproan noanoock pabruk pautreen plaluf pleenouf plioswoox");
    push_words(&mut v, "ploutong poowior praudriost proakeash proonaur puskent regraug roumeat");
    push_words(&mut v, "saupreab sioblaug skeecet skoseeb skuvourk slesnosh sliosweert sloskost");
    push_words(&mut v, "smasost smeegleash smoocuf snaiproar sneegref snoadolt soazus spaidreand");
    push_words(&mut v, "speakleam spioleack spoutert stasmoast stesmiorm stomeant straprear stroastonk");
    push_words(&mut v, "strosean swaicleb swautriod swiobloab swokaunk swouskounk taustrou teezaind");
    push_words(&mut v, "tiskaunub traicub triogijor troaziofik tufod vaswiok viploahing vouhaud");
    push_words(&mut v, "weacleax wioflunt woavaink wuflof zalearm zeeproamod zucroolt baneart beadrix");
    push_words(&mut v, "bispatank blainoung blaitang blioplut bloaskil boaguciosh bomool boostiorm");
    push_words(&mut v, "brafing brauspool breeglup brioklot broanox brozaid bujaux calalt ceagoul");
    push_words(&mut v, "ceegailt cladosk claigut claupreeb cleasmiosh clesnolt cliteal clodraink");
    push_words(&mut v, "cloutroult coagroond coucleek craiswiond crautroun creeplort criglosk");
    push_words(&mut v, "croaplauf crotur dagaund daubraurd deafrut despeask distront doapreank");
    push_words(&mut v, "doucestrod draspob dreajeent dreecrif drekleeg driokisk drufeb dufreard");
    push_words(&mut v, "faistreeg fauweeng feeklosk feklag figlebraib fiojirt flaikaust flaufril");
    push_words(&mut v, "flefeesk flifick fliskeask flooproak flouglaish floutoas foanoot fogrost");
    push_words(&mut v, "fouglul frasmelt frauskalt freamaurk frepun fripleeck froneg frufaung gaisteck");
    push_words(&mut v, "gauvoas geetark glaidrig glauprang glioslear glooslaush glouteank goafroart");
    push_words(&mut v, "gotrend grahoul grauroarn greewoud griosmaurn groaspusk groumeag hastrosh");
    push_words(&mut v, "heaglaurd heesmil higish honeem houcrot jaclus jeaspea jihend jounish jumps");
    push_words(&mut v, "kairoon keeswaip kiosnaist klaflesk klaubrour kleebrourm kliglaul kliokog");
    push_words(&mut v, "kloapor kloodutuk kloufeank kloutoan koogleack kootount kouslaurd kusniont");
    push_words(&mut v, "laizelt leajak leesoud liocraib liotroub loabeapeg loazaim lulaijool maiclaum");
    push_words(&mut v, "meatrirt meklousteg mioblerk moasoalt mustionk naswu neaclouk nesnoast");
    push_words(&mut v, "nispoadep nodoom noogu paibrust paubris pijeast pisnausout plauledant plecrood");
    push_words(&mut v, "pleezoonk pliofairn ploablaut plouseat plucliot poanoal pradear praswiotio");
    push_words(&mut v, "predeetan prilourt proaskoont proocrail prosleax prupiom rasletiorm reaswart");
    push_words(&mut v, "risug roroost sadrast saprouck seatas sijest skaidert skeafailt skelip");
    push_words(&mut v, "skoopolt skouglaing skuhing slaimeack sleeflust slidort sliocroarm sliproog");
    push_words(&mut v, "sloogosk sluglaund smaprost smauzer smeecroak smiceskerd smoafrud smoudrarn");
    push_words(&mut v, "snacrool snakint snealool sniobult sniovep snokaim snuwod sokloond spagrar");
    push_words(&mut v, "spaipeeck spautrou spebior spiodiolt spioproul spoostax spucoon staispend");
    push_words(&mut v, "steaskujad steefrist stikleerm stoafrus stoocauck stousliorn strausmeg");
    push_words(&mut v, "stredoult stroleest stroplaip strurast susnoleart swaijark swaulex sweapox");
    push_words(&mut v, "swiblind swiodresk swoaplob swoostrex swoudrop swucort taskar tecleeb");
    push_words(&mut v, "teemisperd tegred tihis toclair toutoug traikuf traweep trioprig troafloost");
    push_words(&mut v, "trogest trouklearn tuslaink vaihoud vehem vikoont voadabed voocrurn vuspost");
    push_words(&mut v, "watroon weapleed wibresh wioplanut woafring wookloash woudent zableash");
    push_words(&mut v, "zaiblurn zaubraisk zeaziost ziojeack zoutoururm zustraif bailiorm baploof");
    push_words(&mut v, "bautreak beegresh biokleank bistourt blaiclom blaipleeg blairax bleaferm");
    push_words(&mut v, "bleaswail blioprust bloaproond bloaslaick blooriont bofiob bogreard boogloosk");
    push_words(&mut v, "booskont boucrurm brabik braisweap brausnion breaflash breaswand breenis");
    push_words(&mut v, "brijofourk brioleenk brislik brobloom brotrid brubunt brutreton busmouck");
    push_words(&mut v, "caisteerk calurm cautriorn ceakiod ceaswas cewoash cipurk claiblork claiglirm");
    push_words(&mut v, "clairung clastoad cleaflail clealaix cleasweand cleskeest clicriox cliskoon");
    push_words(&mut v, "cloafuf clocrub cloocloux clougloung clovert clustiof cooskult coubiosh");
    push_words(&mut v, "craibonk craislesk craswoof craulaim creafaind creaneaf crefep criflern");
    push_words(&mut v, "crikound criosnok croawerk crospeesk croudraurk cuskelt daglalt daplairt");
    push_words(&mut v, "daupionk deabreesk deajeeblem deeprair dicliog diskoas dizard doagleack doaspa");
    push_words(&mut v, "dooroosh drahecos draleeng draugraunk drazuzark drealort dreawu dreelio");
    push_words(&mut v, "dreesneam dreskoad dribrurm drosoowink drouklailt druglios druslax fagrauk");
    push_words(&mut v, "faiskaunt faudraif fauskand fauwosk feawaush feesed fefrock feristraip fiflack");
    push_words(&mut v, "fimion fiobriork fiskuselt flaigrurk flaipaig flamaurn flaufroon flauread");
    push_words(&mut v, "flekio flifejirn flioleef fliovern floapiol flojurd floosoa flosmaib flougloat");
    push_words(&mut v, "flouswoalt flouvund flutaigra foastraurk focrarm foobiowan fosauclout frahab");
    push_words(&mut v, "fraiflaud frasniof fraukaink frausleak freagraird freaskail freaswaint frezeef");
    push_words(&mut v, "friobir fripreack frocleest froocrosh frubaistir frufrau gafreex gajef");
    push_words(&mut v, "gateepeas geableert geeboaveak gegroa gioslend glastrer glauples glecleak");
    push_words(&mut v, "gliobrink gliotrog glodriosh gloosmoot glotreask glublaik goaflout gobeat");
    push_words(&mut v, "goojel gougliost gousnart graibert graufai greabror greeloun gremeaf griklim");
    push_words(&mut v, "groaclairn groaprex groorend grotun gruwuskap haisteerm hauhink haveaf heaveab");
    push_words(&mut v, "heeblon hesios hespiost hiocespa hispik hoobriont hootesk houfraunt hutagroun");
    push_words(&mut v, "jahuje jauwoof jeefleern jigluck joocenk jouburn joutrais juloolt juplaig");
    push_words(&mut v, "kaikail kautreet keemeant kesnaus kiosmon kiosneenk klabler klaskearn");
    push_words(&mut v, "klaubloost kleacrir klearond kletraib klidoard kliloust klioglair kliomit");
    push_words(&mut v, "kloakloonk kloasmavop klocloox klooflif klootroul kloujul klousnouck kluspairt");
    push_words(&mut v, "koogaind koograirm koosweg kospink kouprand kubluck kuprur kuswoork laigleart");
    push_words(&mut v, "lauploang lazoplaurk leegaid leeslais lereesh lidroul lioglant liotrerk");
    push_words(&mut v, "liovoant lizoacord loacraif loakipreen loocroom losork lutroang maiboab");
    push_words(&mut v, "meaciock measpeend meazoank mefeet mesmun migoork miohird moabusk moslish");
    push_words(&mut v, "muspulou nagaugearn nalutream naswudionk nauskeen neaploash neeploleem nigrisk");
    push_words(&mut v, "niroak noagrusk nocluk nofarm noocaud nousit pagleeg paihet pajeng paujosk");
    push_words(&mut v, "piblekios pijionk piskaup plaivel plaufong plaupraud pleahail pleecloosh");
    push_words(&mut v, "pleewilt plero pleslosk pliogroong plispick ploozep ploslousk plouskeern");
    push_words(&mut v, "ploutruzax plufreend poahairn poolob poudiong praiceab praislailt praubroal");
    push_words(&mut v, "preaslon preeboog prikobring priobal proalel proasliork profan proodrird");
    push_words(&mut v, "prooroob proukux pruhior pufrilt raizick raukupiolt reastrest refiok resnesh");
    push_words(&mut v, "roanaum ronon rostrush rukuplant saidauprif sapauf sauplaing seaploarm");
    push_words(&mut v, "seesweast seplauf sineak sizaig skaitrin skastoask skeaklit skeepeend");
    push_words(&mut v, "skiofeenk skioner skooswist skouclul skoumep skouzain skuklirt skuzeep");
    push_words(&mut v, "slauliosk sleasnoo slenaub sleviox slifroarn sliobit sliopurd sliotrios");
    push_words(&mut v, "sloasmoosh slooglom sloosoank slufleard sluvek smaistourk smasnauck smausteeb");
    push_words(&mut v, "smawenk smeasnaul smeegaup smeflouhed smiofeerd smoafrang smocroosk smoste");
    push_words(&mut v, "smoufloal smunam snaglonk snaiswourn snauprask snaveern sneaneam sneeprug");
    push_words(&mut v, "sniogrank sniospoont snivig snocloard snousaut snudriosik soateaf sofroap");
    push_words(&mut v, "soojeer soubloask spagrenk spaigliod spaistreal spauspod spavoom spealourt");
    push_words(&mut v, "speefoad spifrarm spiogriolt spioloash spoakleesh spooslosk spopraush");
    push_words(&mut v, "spubleant spukoroash spuspoowuf staiswairm stauzoar steasmail steazir");
    push_words(&mut v, "steeslail stiglegrop stiodrorn stispurn stobrosh stonos stoonong stoucloosk");
    push_words(&mut v, "straicruck straujunt straweek streafrurt strionot strofar stroogrerk");
    push_words(&mut v, "strooskaub stroprand stroslult stufleash stusteet swacipoux swaicloank");
    push_words(&mut v, "swaubrint swauhok swaulios sweafroank sweeblaud swewack swihop swioboan");
    push_words(&mut v, "swiofreack swoaplern swofloart swoojoog swoskerd swoucralt swouflack swouswack");
    push_words(&mut v, "swuspark taiwoug taucaux teapol teefiol teekauck teewand teezoabun terum");
    push_words(&mut v, "tezoand tiomoust tivoud toflok toukleank touvouloum traiglef trapriolt");
    push_words(&mut v, "trauclark treekiom trioplond tripleend troaburn troaspook troboacork trookuck");
    push_words(&mut v, "troujop tubloolt tuskaink tusperd vaigrep vaijuck veajaub vespozoand vigroat");
    push_words(&mut v, "viowailt visnart voageg voocog vostiod vuslaix waifourn wastroarn waumoprorn");
    push_words(&mut v, "weadresh wecloolt wekain wiclaumern wiomain wiosoonk witraint woapoog wobrarn");
    push_words(&mut v, "wosmoark woudaix wubek wuzoum zabloud zaibliot zaimas zasnais zeabroarm");
    push_words(&mut v, "zeakougeem zeehoa zesork ziskal zoospunt zouzioglai zugourt zusturo baihel");
    v
}

} // verus!
